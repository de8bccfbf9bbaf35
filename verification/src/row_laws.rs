//! What lookups, deletes and the post endpoints answer, stated over the
//! rows themselves: a lookup by id finds the row with that id, a delete
//! removes exactly the rows with that id, a reply keeps what the client
//! sent, and replies come in the order they were linked.

use vstd::prelude::*;

use crate::laws::{lemma_link_reads, lemma_post_id_unique, lemma_user_id_unique, lemma_written_post_reads_back};
use crate::models::post::{has_post_id, PostTableView, PostView};
use crate::models::tweet::{
    any_tweet, by_user, child_of, has_tweet_id, is_root, oldest_first, ordered_by_creation, TweetTableView, TweetView,
};
use crate::models::user::{has_user_id, UserTableView, UserView};
use crate::ordering::{
    lemma_filter_contains_iff, lemma_first_match, lemma_remove_unique_match, lemma_reordering_from, lemma_reordering_onto,
};
use crate::routes::post::{
    create_post_outcome, create_reply_outcome, delete_post_outcome, get_post_outcome, get_replies_outcome, identity_readable,
    session_user,
};
use crate::routes::user::get_username_outcome;
use crate::routes::{PayloadView, SessionView, Status};

verus! {

/// A post is found by id exactly when some row has that id, and what is
/// found is a row of the table with that id.
pub proof fn lemma_post_lookup(t: PostTableView, id: i32)
    ensures
        t.contains(id) <==> exists|i: int| 0 <= i < t.rows.len() && #[trigger] t.rows[i].id == id,
        t.contains(id) ==> t.row(id).id == id && t.rows.contains(t.row(id)),
{
    lemma_first_match(t.rows, has_post_id(id));
    if exists|i: int| 0 <= i < t.rows.len() && #[trigger] t.rows[i].id == id {
        let i = choose|i: int| 0 <= i < t.rows.len() && #[trigger] t.rows[i].id == id;
        assert(has_post_id(id)(t.rows[i]));
    }
    if t.contains(id) {
        assert(has_post_id(id)(t.rows[t.index_of(id)]));
    }
}

/// A tweet is found by id exactly when some row has that id, and what is
/// found is a row of the table with that id.
pub proof fn lemma_tweet_lookup(t: TweetTableView, id: i64)
    ensures
        t.contains(id) <==> exists|i: int| 0 <= i < t.rows.len() && #[trigger] t.rows[i].id == id,
        t.contains(id) ==> t.row(id).id == id && t.rows.contains(t.row(id)),
{
    lemma_first_match(t.rows, has_tweet_id(id));
    if exists|i: int| 0 <= i < t.rows.len() && #[trigger] t.rows[i].id == id {
        let i = choose|i: int| 0 <= i < t.rows.len() && #[trigger] t.rows[i].id == id;
        assert(has_tweet_id(id)(t.rows[i]));
    }
    if t.contains(id) {
        assert(has_tweet_id(id)(t.rows[t.index_of(id)]));
    }
}

/// An account is found by id exactly when some row has that id, and what
/// is found is a row of the table with that id.
pub proof fn lemma_user_lookup(t: UserTableView, id: i32)
    ensures
        t.contains(id) <==> exists|i: int| 0 <= i < t.rows.len() && #[trigger] t.rows[i].id == id,
        t.contains(id) ==> t.row(id).id == id && t.rows.contains(t.row(id)),
{
    lemma_first_match(t.rows, has_user_id(id));
    if exists|i: int| 0 <= i < t.rows.len() && #[trigger] t.rows[i].id == id {
        let i = choose|i: int| 0 <= i < t.rows.len() && #[trigger] t.rows[i].id == id;
        assert(has_user_id(id)(t.rows[i]));
    }
    if t.contains(id) {
        assert(has_user_id(id)(t.rows[t.index_of(id)]));
    }
}

/// In a well-formed tweets table at most one row has a given id.
proof fn lemma_tweet_id_unique(t: TweetTableView, x: i64)
    requires
        t.wf(),
    ensures
        forall|a: int, b: int|
            0 <= a < t.rows.len() && 0 <= b < t.rows.len() && has_tweet_id(x)(#[trigger] t.rows[a])
                && has_tweet_id(x)(#[trigger] t.rows[b]) ==> a == b,
{
    assert forall|a: int, b: int|
        0 <= a < t.rows.len() && 0 <= b < t.rows.len() && has_tweet_id(x)(#[trigger] t.rows[a])
            && has_tweet_id(x)(#[trigger] t.rows[b]) implies a == b by {
        if a < b {
            assert(t.rows[a].id != t.rows[b].id);
        } else if b < a {
            assert(t.rows[b].id != t.rows[a].id);
        }
    }
}

/// Deleting a post by id removes exactly the rows with that id: no row
/// with it is left, and every other row stays.
pub proof fn lemma_post_delete_contents(t: PostTableView, id: i32)
    requires
        t.wf(),
    ensures
        forall|i: int| 0 <= i < t.delete(id).rows.len() ==> (#[trigger] t.delete(id).rows[i]).id != id,
        forall|x: PostView| #[trigger] t.delete(id).rows.contains(x) <==> (t.rows.contains(x) && x.id != id),
        t.delete(id).next_id == t.next_id,
{
    lemma_first_match(t.rows, has_post_id(id));
    if t.contains(id) {
        lemma_post_id_unique(t, id);
        lemma_remove_unique_match(t.rows, t.index_of(id), has_post_id(id));
        assert forall|i: int| 0 <= i < t.delete(id).rows.len() implies (#[trigger] t.delete(id).rows[i]).id
            != id by {
            assert(!has_post_id(id)(t.delete(id).rows[i]));
        }
        assert forall|x: PostView| #[trigger] t.delete(id).rows.contains(x) <==> (t.rows.contains(x) && x.id
            != id) by {
            assert(has_post_id(id)(x) == (x.id == id));
        }
    } else {
        assert forall|x: PostView| #[trigger] t.delete(id).rows.contains(x) <==> (t.rows.contains(x) && x.id
            != id) by {
            if t.rows.contains(x) {
                let i = choose|i: int| 0 <= i < t.rows.len() && t.rows[i] == x;
                assert(!has_post_id(id)(t.rows[i]));
            }
        }
        assert forall|i: int| 0 <= i < t.delete(id).rows.len() implies (#[trigger] t.delete(id).rows[i]).id
            != id by {
            assert(!has_post_id(id)(t.rows[i]));
        }
    }
}

/// Deleting a tweet by id removes exactly the rows with that id: no row
/// with it is left, and every other row stays.
pub proof fn lemma_tweet_delete_contents(t: TweetTableView, id: i64)
    requires
        t.wf(),
    ensures
        forall|i: int| 0 <= i < t.delete(id).rows.len() ==> (#[trigger] t.delete(id).rows[i]).id != id,
        forall|x: TweetView| #[trigger] t.delete(id).rows.contains(x) <==> (t.rows.contains(x) && x.id != id),
{
    lemma_first_match(t.rows, has_tweet_id(id));
    if t.contains(id) {
        lemma_tweet_id_unique(t, id);
        lemma_remove_unique_match(t.rows, t.index_of(id), has_tweet_id(id));
        assert forall|i: int| 0 <= i < t.delete(id).rows.len() implies (#[trigger] t.delete(id).rows[i]).id
            != id by {
            assert(!has_tweet_id(id)(t.delete(id).rows[i]));
        }
        assert forall|x: TweetView| #[trigger] t.delete(id).rows.contains(x) <==> (t.rows.contains(x) && x.id
            != id) by {
            assert(has_tweet_id(id)(x) == (x.id == id));
        }
    } else {
        assert forall|x: TweetView| #[trigger] t.delete(id).rows.contains(x) <==> (t.rows.contains(x) && x.id
            != id) by {
            if t.rows.contains(x) {
                let i = choose|i: int| 0 <= i < t.rows.len() && t.rows[i] == x;
                assert(!has_tweet_id(id)(t.rows[i]));
            }
        }
        assert forall|i: int| 0 <= i < t.delete(id).rows.len() implies (#[trigger] t.delete(id).rows[i]).id
            != id by {
            assert(!has_tweet_id(id)(t.rows[i]));
        }
    }
}

/// Deleting an account by id removes exactly the rows with that id: no
/// row with it is left, and every other row stays.
pub proof fn lemma_user_delete_contents(t: UserTableView, id: i32)
    requires
        t.wf(),
    ensures
        forall|i: int| 0 <= i < t.delete(id).rows.len() ==> (#[trigger] t.delete(id).rows[i]).id != id,
        forall|x: UserView| #[trigger] t.delete(id).rows.contains(x) <==> (t.rows.contains(x) && x.id != id),
        t.delete(id).next_id == t.next_id,
{
    lemma_first_match(t.rows, has_user_id(id));
    if t.contains(id) {
        lemma_user_id_unique(t, id);
        lemma_remove_unique_match(t.rows, t.index_of(id), has_user_id(id));
        assert forall|i: int| 0 <= i < t.delete(id).rows.len() implies (#[trigger] t.delete(id).rows[i]).id
            != id by {
            assert(!has_user_id(id)(t.delete(id).rows[i]));
        }
        assert forall|x: UserView| #[trigger] t.delete(id).rows.contains(x) <==> (t.rows.contains(x) && x.id
            != id) by {
            assert(has_user_id(id)(x) == (x.id == id));
        }
    } else {
        assert forall|x: UserView| #[trigger] t.delete(id).rows.contains(x) <==> (t.rows.contains(x) && x.id
            != id) by {
            if t.rows.contains(x) {
                let i = choose|i: int| 0 <= i < t.rows.len() && t.rows[i] == x;
                assert(!has_user_id(id)(t.rows[i]));
            }
        }
        assert forall|i: int| 0 <= i < t.delete(id).rows.len() implies (#[trigger] t.delete(id).rows[i]).id
            != id by {
            assert(!has_user_id(id)(t.rows[i]));
        }
    }
}

/// `GET /post/{id}` answers 200 exactly when some post has the requested
/// id, and then with a post of the table that has that id; otherwise 404
/// with no body. The session is never touched.
pub proof fn lemma_get_post_answers_requested(t: PostTableView, post_id: i32)
    ensures
        get_post_outcome(post_id, t).status == Status::Success <==> exists|i: int|
            0 <= i < t.rows.len() && #[trigger] t.rows[i].id == post_id,
        get_post_outcome(post_id, t).status == Status::Success ==> (get_post_outcome(post_id, t).payload matches PayloadView::Post(x)
            && x.id == post_id && t.rows.contains(x)),
        get_post_outcome(post_id, t).status != Status::Success ==> get_post_outcome(post_id, t).status
            == Status::NotFound && get_post_outcome(post_id, t).payload == PayloadView::Empty,
        get_post_outcome(post_id, t).session == SessionView::Keep,
{
    lemma_post_lookup(t, post_id);
}

/// `POST /get_username` answers 200 exactly when some account has the
/// requested id, and then with that account's username; otherwise 404.
pub proof fn lemma_get_username_answers_requested(t: UserTableView, user_id: i32)
    ensures
        get_username_outcome(user_id, t).status == Status::Success <==> exists|i: int|
            0 <= i < t.rows.len() && #[trigger] t.rows[i].id == user_id,
        get_username_outcome(user_id, t).status == Status::Success ==> (get_username_outcome(user_id, t).payload matches PayloadView::UserName(n)
            && exists|i: int| 0 <= i < t.rows.len() && #[trigger] t.rows[i].id == user_id && t.rows[i].username == n),
        get_username_outcome(user_id, t).status != Status::Success ==> get_username_outcome(user_id, t).status
            == Status::NotFound,
{
    lemma_user_lookup(t, user_id);
    if t.contains(user_id) {
        lemma_first_match(t.rows, has_user_id(user_id));
        assert(t.rows[t.index_of(user_id)].id == user_id);
    }
}

/// `GET /replies/{id}` answers 200 exactly when the post exists and every
/// id on its reply list belongs to a post; the answer then lists, at each
/// position, the post whose id stands at that position of the reply list,
/// so replies come in the order they were linked. Otherwise it answers 404.
pub proof fn lemma_replies_in_link_order(t: PostTableView, post_id: i32)
    requires
        t.wf(),
    ensures
        get_replies_outcome(post_id, t).session == SessionView::Keep,
        get_replies_outcome(post_id, t).status == Status::Success || get_replies_outcome(post_id, t).status
            == Status::NotFound,
        get_replies_outcome(post_id, t).status == Status::Success <==> exists|i: int|
            0 <= i < t.rows.len() && #[trigger] t.rows[i].id == post_id && forall|k: int|
                0 <= k < t.rows[i].reply_id.len() ==> exists|j: int|
                    0 <= j < t.rows.len() && #[trigger] t.rows[j].id == #[trigger] t.rows[i].reply_id[k],
        forall|i: int|
            0 <= i < t.rows.len() && #[trigger] t.rows[i].id == post_id && get_replies_outcome(post_id, t).status
                == Status::Success ==> (get_replies_outcome(post_id, t).payload matches PayloadView::Posts(s)
                && s.len() == t.rows[i].reply_id.len() && forall|k: int|
                0 <= k < s.len() ==> #[trigger] s[k].id == t.rows[i].reply_id[k] && t.rows.contains(s[k])),
{
    lemma_post_lookup(t, post_id);
    lemma_post_id_unique(t, post_id);
    lemma_first_match(t.rows, has_post_id(post_id));
    let out = get_replies_outcome(post_id, t);
    if t.replies(post_id) is Some {
        let i0 = t.index_of(post_id);
        let ids = t.row(post_id).reply_id;
        assert forall|k: int| 0 <= k < t.rows[i0].reply_id.len() implies exists|j: int|
            0 <= j < t.rows.len() && #[trigger] t.rows[j].id == #[trigger] t.rows[i0].reply_id[k] by {
            assert(t.contains(ids[k]));
            lemma_post_lookup(t, ids[k]);
        }
        assert(t.rows[i0].id == post_id);
        let s = t.replies(post_id).unwrap();
        assert forall|i: int| 0 <= i < t.rows.len() && #[trigger] t.rows[i].id == post_id implies (out.payload matches PayloadView::Posts(s2)
            && s2.len() == t.rows[i].reply_id.len() && forall|k: int|
            0 <= k < s2.len() ==> #[trigger] s2[k].id == t.rows[i].reply_id[k] && t.rows.contains(s2[k])) by {
            assert(has_post_id(post_id)(t.rows[i]));
            assert(has_post_id(post_id)(t.rows[i0]));
            assert(i == i0);
            assert forall|k: int| 0 <= k < s.len() implies #[trigger] s[k].id == t.rows[i].reply_id[k]
                && t.rows.contains(s[k]) by {
                assert(t.contains(ids[k]));
                lemma_post_lookup(t, ids[k]);
            }
        }
    } else {
        if exists|i: int|
            0 <= i < t.rows.len() && #[trigger] t.rows[i].id == post_id && forall|k: int|
                0 <= k < t.rows[i].reply_id.len() ==> exists|j: int|
                    0 <= j < t.rows.len() && #[trigger] t.rows[j].id == #[trigger] t.rows[i].reply_id[k] {
            let i = choose|i: int|
                0 <= i < t.rows.len() && #[trigger] t.rows[i].id == post_id && forall|k: int|
                    0 <= k < t.rows[i].reply_id.len() ==> exists|j: int|
                        0 <= j < t.rows.len() && #[trigger] t.rows[j].id == #[trigger] t.rows[i].reply_id[k];
            assert(has_post_id(post_id)(t.rows[i]));
            let i0 = t.index_of(post_id);
            assert(has_post_id(post_id)(t.rows[i0]));
            assert(i == i0);
            let ids = t.row(post_id).reply_id;
            assert forall|k: int| 0 <= k < ids.len() implies t.contains(#[trigger] ids[k]) by {
                assert(t.rows[i].reply_id[k] == ids[k]);
                lemma_post_lookup(t, ids[k]);
            }
            assert(t.replies(post_id) is Some);
        }
    }
}

/// `DELETE /post` answers 204 exactly when the post exists and the caller
/// has a session, and then the table keeps every row but those with the
/// requested id (and no row with it is left); on any other answer the
/// table is unchanged, with 404 exactly when no post has the id.
pub proof fn lemma_delete_post_removes_requested(t: PostTableView, identity: Option<Seq<char>>, post_id: i32)
    requires
        t.wf(),
    ensures
        delete_post_outcome(identity, post_id, t).0.status == Status::NoContent <==> ((exists|i: int|
            0 <= i < t.rows.len() && #[trigger] t.rows[i].id == post_id) && identity is Some),
        delete_post_outcome(identity, post_id, t).0.status == Status::NoContent ==> {
            let t2 = delete_post_outcome(identity, post_id, t).1;
            &&& forall|i: int| 0 <= i < t2.rows.len() ==> (#[trigger] t2.rows[i]).id != post_id
            &&& forall|x: PostView| #[trigger] t2.rows.contains(x) <==> (t.rows.contains(x) && x.id != post_id)
            &&& t2.next_id == t.next_id
        },
        delete_post_outcome(identity, post_id, t).0.status != Status::NoContent ==> delete_post_outcome(
            identity,
            post_id,
            t,
        ).1 == t,
        delete_post_outcome(identity, post_id, t).0.status == Status::NotFound <==> !exists|i: int|
            0 <= i < t.rows.len() && #[trigger] t.rows[i].id == post_id,
{
    lemma_post_lookup(t, post_id);
    lemma_post_delete_contents(t, post_id);
}

/// After `POST /create_reply/{id}` answers 201, the table holds, under the
/// id the sequence handed out (which no row had before), a reply with the
/// body and subject as sent, by the session's user, stamped `created`; the
/// parent, where it exists, lists that id last; and every other row of the
/// table stays. Without a session or a free id the answer is 400 and
/// nothing changes.
pub proof fn lemma_reply_stored_as_sent(
    t: PostTableView,
    identity: Option<Seq<char>>,
    parent: i32,
    body: Seq<char>,
    subject: Seq<char>,
    created: i64,
)
    requires
        t.wf(),
        identity_readable(identity),
    ensures
        create_reply_outcome(identity, parent, t, body, subject, created).0.status == Status::Created <==> (
        identity is Some && t.next_id is Some),
        create_reply_outcome(identity, parent, t, body, subject, created).0.status != Status::Created ==> (
        create_reply_outcome(identity, parent, t, body, subject, created).0.status == Status::BadRequest
            && create_reply_outcome(identity, parent, t, body, subject, created).1 == t),
        create_reply_outcome(identity, parent, t, body, subject, created).0.status == Status::Created ==> {
            let n = t.next_id.unwrap();
            let t2 = create_reply_outcome(identity, parent, t, body, subject, created).1;
            &&& forall|i: int| 0 <= i < t.rows.len() ==> (#[trigger] t.rows[i]).id != n
            &&& exists|i: int|
                0 <= i < t2.rows.len() && #[trigger] t2.rows[i].id == n && t2.rows[i].body == body
                    && t2.rows[i].subject == subject && t2.rows[i].reply && t2.rows[i].user_id == session_user(
                    identity,
                ) && t2.rows[i].created == created && t2.rows[i].reply_id == (if parent == n {
                    seq![n]
                } else {
                    Seq::<i32>::empty()
                })
            &&& forall|i: int|
                0 <= i < t.rows.len() && #[trigger] t.rows[i].id == parent ==> exists|j: int|
                    0 <= j < t2.rows.len() && #[trigger] t2.rows[j].id == parent && t2.rows[j].reply_id
                        == t.rows[i].reply_id.push(n)
            &&& forall|i: int| 0 <= i < t.rows.len() && (#[trigger] t.rows[i]).id != parent ==> t2.rows.contains(t.rows[i])
        },
{
    if identity is Some && t.next_id is Some {
        let n = t.next_id.unwrap();
        let uid = session_user(identity);
        let t1 = t.insert(uid, body, subject, created, true);
        let t2 = t1.link(parent, n);
        assert(t2 == create_reply_outcome(identity, parent, t, body, subject, created).1);
        lemma_written_post_reads_back(t, uid, body, subject, created, true);
        assert forall|i: int| 0 <= i < t.rows.len() implies (#[trigger] t.rows[i]).id != n by {
            assert(t.rows[i].id < n);
        }
        lemma_post_id_unique(t, parent);
        lemma_first_match(t.rows, has_post_id(parent));
        if t1.contains(parent) {
            lemma_link_reads(t1, parent, n);
        } else {
            assert(t2 == t1);
        }
        // the new reply
        lemma_post_lookup(t2, n);
        assert(t2.contains(n));
        lemma_first_match(t2.rows, has_post_id(n));
        let k = t2.index_of(n);
        assert(t2.rows[k] == t2.row(n));
        if parent == n {
            assert(t2.row(n).reply_id =~= seq![n]);
        } else {
            assert(t2.row(n) == t1.row(n));
        }
        assert(t2.rows[k].id == n);
        // the parent
        assert forall|i: int| 0 <= i < t.rows.len() && #[trigger] t.rows[i].id == parent implies exists|j: int|
            0 <= j < t2.rows.len() && #[trigger] t2.rows[j].id == parent && t2.rows[j].reply_id
                == t.rows[i].reply_id.push(n) by {
            assert(has_post_id(parent)(t.rows[i]));
            assert(has_post_id(parent)(t.rows[t.index_of(parent)]));
            assert(i == t.index_of(parent));
            assert(t1.contains(parent) && t1.row(parent) == t.row(parent));
            lemma_post_lookup(t2, parent);
            lemma_first_match(t2.rows, has_post_id(parent));
            let j = t2.index_of(parent);
            assert(t2.rows[j] == t2.row(parent));
        }
        // every other row
        assert forall|i: int| 0 <= i < t.rows.len() && (#[trigger] t.rows[i]).id != parent implies t2.rows.contains(
            t.rows[i],
        ) by {
            let x = t.rows[i].id;
            lemma_post_id_unique(t, x);
            lemma_first_match(t.rows, has_post_id(x));
            assert(has_post_id(x)(t.rows[i]));
            assert(has_post_id(x)(t.rows[t.index_of(x)]));
            assert(i == t.index_of(x));
            assert(x != n);
            lemma_post_lookup(t, x);
            assert(t.contains(x));
            assert(t1.contains(x) == t.contains(x));
            assert(t1.contains(x) && t1.row(x) == t.row(x));
            if t1.contains(parent) {
                assert(t2.row(x) == t1.row(x));
            }
            lemma_post_lookup(t2, x);
        }
    }
}

/// After `POST /create_post` answers 201, the table holds, under the id
/// the sequence handed out (which no row had before), a post that is not a
/// reply, with the body and subject as sent, by the session's user, stamped
/// `created` and with no replies; every earlier row stays. Without a
/// session the answer is 404, without a free id 400, and nothing changes.
pub proof fn lemma_post_stored_as_sent(
    t: PostTableView,
    identity: Option<Seq<char>>,
    body: Seq<char>,
    subject: Seq<char>,
    created: i64,
)
    requires
        t.wf(),
        identity_readable(identity),
    ensures
        create_post_outcome(identity, t, body, subject, created).0.status == Status::Created <==> (identity is Some
            && t.next_id is Some),
        identity is None ==> create_post_outcome(identity, t, body, subject, created).0.status == Status::NotFound,
        create_post_outcome(identity, t, body, subject, created).0.status != Status::Created
            ==> create_post_outcome(identity, t, body, subject, created).1 == t,
        create_post_outcome(identity, t, body, subject, created).0.status == Status::Created ==> {
            let n = t.next_id.unwrap();
            let t2 = create_post_outcome(identity, t, body, subject, created).1;
            &&& forall|i: int| 0 <= i < t.rows.len() ==> (#[trigger] t.rows[i]).id != n
            &&& exists|i: int|
                0 <= i < t2.rows.len() && #[trigger] t2.rows[i].id == n && t2.rows[i].body == body
                    && t2.rows[i].subject == subject && !t2.rows[i].reply && t2.rows[i].user_id == session_user(
                    identity,
                ) && t2.rows[i].created == created && t2.rows[i].reply_id == Seq::<i32>::empty()
            &&& forall|i: int| 0 <= i < t.rows.len() ==> t2.rows.contains(#[trigger] t.rows[i])
        },
{
    if identity is Some && t.next_id is Some {
        let n = t.next_id.unwrap();
        let uid = session_user(identity);
        let t2 = t.insert(uid, body, subject, created, false);
        lemma_written_post_reads_back(t, uid, body, subject, created, false);
        assert forall|i: int| 0 <= i < t.rows.len() implies (#[trigger] t.rows[i]).id != n by {
            assert(t.rows[i].id < n);
        }
        assert(t2.rows[t.rows.len() as int].id == n);
        assert forall|i: int| 0 <= i < t.rows.len() implies t2.rows.contains(#[trigger] t.rows[i]) by {
            assert(t2.rows[i] == t.rows[i]);
        }
    }
}

/// The tweet listings hold exactly the tweets they select, each once and
/// oldest first: all tweets; those by one user; those that answer no other;
/// those that answer a given tweet.
pub proof fn lemma_tweet_listings_select(
    t: TweetTableView,
    u: i32,
    p: i64,
    all: Seq<TweetView>,
    mine: Seq<TweetView>,
    roots: Seq<TweetView>,
    children: Seq<TweetView>,
)
    requires
        ordered_by_creation(t.select(any_tweet()), all),
        ordered_by_creation(t.select(by_user(u)), mine),
        ordered_by_creation(t.select(is_root()), roots),
        ordered_by_creation(t.select(child_of(p)), children),
    ensures
        all.len() == t.rows.len(),
        forall|x: TweetView| #[trigger] all.contains(x) <==> t.rows.contains(x),
        forall|x: TweetView| #[trigger] mine.contains(x) <==> (t.rows.contains(x) && x.user_id == u),
        forall|x: TweetView| #[trigger] roots.contains(x) <==> (t.rows.contains(x) && x.parent_id is None),
        forall|x: TweetView| #[trigger] children.contains(x) <==> (t.rows.contains(x) && x.parent_id == Some(p)),
        oldest_first(all) && oldest_first(mine) && oldest_first(roots) && oldest_first(children),
{
    assert forall|x: TweetView| #[trigger] all.contains(x) <==> t.rows.contains(x) by {
        lemma_reordering_member(t.select(any_tweet()), all, x);
        lemma_filter_contains_iff(t.rows, any_tweet(), x);
    }
    assert(t.select(any_tweet()).len() == t.rows.len()) by {
        lemma_filter_all(t.rows);
    }
    assert forall|x: TweetView| #[trigger] mine.contains(x) <==> (t.rows.contains(x) && x.user_id == u) by {
        lemma_reordering_member(t.select(by_user(u)), mine, x);
        lemma_filter_contains_iff(t.rows, by_user(u), x);
    }
    assert forall|x: TweetView| #[trigger] roots.contains(x) <==> (t.rows.contains(x) && x.parent_id is None) by {
        lemma_reordering_member(t.select(is_root()), roots, x);
        lemma_filter_contains_iff(t.rows, is_root(), x);
    }
    assert forall|x: TweetView| #[trigger] children.contains(x) <==> (t.rows.contains(x) && x.parent_id == Some(
        p,
    )) by {
        lemma_reordering_member(t.select(child_of(p)), children, x);
        lemma_filter_contains_iff(t.rows, child_of(p), x);
    }
}

/// A reordering holds exactly the elements of what it reorders.
proof fn lemma_reordering_member(src: Seq<TweetView>, dst: Seq<TweetView>, x: TweetView)
    requires
        crate::ordering::is_reordering(src, dst),
    ensures
        dst.contains(x) <==> src.contains(x),
{
    if dst.contains(x) {
        let k = choose|k: int| 0 <= k < dst.len() && dst[k] == x;
        lemma_reordering_from(src, dst, k);
    }
    if src.contains(x) {
        let i = choose|i: int| 0 <= i < src.len() && src[i] == x;
        lemma_reordering_onto(src, dst, i);
    }
}

/// Selecting every tweet keeps them all.
proof fn lemma_filter_all(s: Seq<TweetView>)
    ensures
        s.filter(any_tweet()) == s,
    decreases s.len(),
{
    reveal(Seq::filter);
    if s.len() > 0 {
        lemma_filter_all(s.drop_last());
        assert(s.drop_last().push(s.last()) =~= s);
    }
}

} // verus!
