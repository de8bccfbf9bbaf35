//! Properties that relate several operations: what a read gives back after
//! a write, what the front page and the thread listings may leave out, and
//! what signing in after registering yields.

use vstd::prelude::*;

use crate::identity::{format_i32, lemma_identity_round_trip, parse_i32};
use crate::models::password::{argon2_accepts, phc_parses};
use crate::models::post::{first_ten_newest, has_post_id, is_top_level, newest_first, PostTableView, PostView};
use crate::models::tweet::{
    any_tweet, by_user, child_of, is_root, oldest_first, ordered_by_creation, TweetTableView, TweetView,
};
use crate::models::user::{has_user_id, has_username, UserTableView};
use crate::ordering::{
    first_match, is_reordering, lemma_first_match, lemma_first_match_at, lemma_first_match_pointwise, lemma_first_match_remove,
    lemma_filter_contains_iff, lemma_filter_from, lemma_filter_no_dup, lemma_first_match_push,
    lemma_reordering_from, lemma_reordering_no_dup, lemma_same_elements_reordering, lemma_reordering_onto,
};
use crate::routes::post::{create_post_outcome, identity_readable};
use crate::routes::user::{login_hash_readable, login_outcome};
use crate::routes::{PayloadView, ResponseView, SessionView, Status};

verus! {

broadcast use vstd::seq_lib::group_filter_ensures;

/// A post that is written can be read back under the id the sequence gave
/// it, that id was free before, and every other post reads as before.
pub proof fn lemma_written_post_reads_back(
    t: PostTableView,
    user_id: i32,
    body: Seq<char>,
    subject: Seq<char>,
    created: i64,
    reply: bool,
)
    requires
        t.wf(),
        t.next_id is Some,
    ensures
        ({
            let n = t.next_id.unwrap();
            let t2 = t.insert(user_id, body, subject, created, reply);
            &&& t2.wf()
            &&& !t.contains(n)
            &&& t2.contains(n)
            &&& t2.row(n) == t.new_row(user_id, body, subject, created, reply)
            &&& forall|id: i32|
                id != n ==> (#[trigger] t2.contains(id) == t.contains(id) && (t.contains(id) ==> t2.row(id)
                    == t.row(id)))
        }),
{
    let n = t.next_id.unwrap();
    let row = t.new_row(user_id, body, subject, created, reply);
    let t2 = t.insert(user_id, body, subject, created, reply);
    assert forall|i: int| 0 <= i < t.rows.len() implies !has_post_id(n)(#[trigger] t.rows[i]) by {
        assert(t.rows[i].id < n);
    }
    lemma_first_match(t.rows, has_post_id(n));
    lemma_first_match_push(t.rows, row, has_post_id(n));
    assert forall|id: i32| id != n implies (#[trigger] t2.contains(id) == t.contains(id) && (t.contains(id)
        ==> t2.row(id) == t.row(id))) by {
        lemma_first_match_push(t.rows, row, has_post_id(id));
        lemma_first_match(t.rows, has_post_id(id));
    }
    assert forall|k: int| 0 <= k < t2.rows.len() implies (t2.next_id matches Some(m) ==> #[trigger] t2.rows[k].id
        < m) by {
        if k < t.rows.len() {
            assert(t.rows[k].id < n);
        }
    }
    assert forall|a: int, b: int| 0 <= a < b < t2.rows.len() implies #[trigger] t2.rows[a].id
        != #[trigger] t2.rows[b].id by {
        if b < t.rows.len() {
        } else {
            assert(t.rows[a].id < n);
        }
    }
}

/// In a well-formed table at most one row has a given id.
pub proof fn lemma_post_id_unique(t: PostTableView, x: i32)
    requires
        t.wf(),
    ensures
        forall|a: int, b: int|
            0 <= a < t.rows.len() && 0 <= b < t.rows.len() && has_post_id(x)(#[trigger] t.rows[a]) && has_post_id(x)(
                #[trigger] t.rows[b],
            ) ==> a == b,
{
    assert forall|a: int, b: int|
        0 <= a < t.rows.len() && 0 <= b < t.rows.len() && has_post_id(x)(#[trigger] t.rows[a]) && has_post_id(x)(
            #[trigger] t.rows[b],
        ) implies a == b by {
        if a < b {
            assert(t.rows[a].id != t.rows[b].id);
        } else if b < a {
            assert(t.rows[b].id != t.rows[a].id);
        }
    }
}

/// After a post is deleted it can no longer be read, and every other post
/// reads as before.
pub proof fn lemma_deleted_post_is_gone(t: PostTableView, id: i32)
    requires
        t.wf(),
    ensures
        t.delete(id).wf(),
        !t.delete(id).contains(id),
        forall|other: i32|
            other != id ==> (#[trigger] t.delete(id).contains(other) == t.contains(other) && (t.contains(other)
                ==> t.delete(id).row(other) == t.row(other))),
{
    lemma_first_match(t.rows, has_post_id(id));
    if t.contains(id) {
        let idx = t.index_of(id);
        let rows2 = t.rows.remove(idx);
        lemma_post_id_unique(t, id);
        lemma_first_match_remove(t.rows, idx, has_post_id(id));
        assert forall|other: i32| other != id implies (#[trigger] t.delete(id).contains(other) == t.contains(
            other,
        ) && (t.contains(other) ==> t.delete(id).row(other) == t.row(other))) by {
            lemma_post_id_unique(t, other);
            lemma_first_match_remove(t.rows, idx, has_post_id(other));
            lemma_first_match(t.rows, has_post_id(other));
        }
        assert forall|i: int| 0 <= i < rows2.len() implies #[trigger] rows2[i] == t.rows[if i < idx {
            i
        } else {
            i + 1
        }] by {}
        assert forall|a: int, b: int| 0 <= a < b < rows2.len() implies #[trigger] rows2[a].id
            != #[trigger] rows2[b].id by {
            let ka = if a < idx { a } else { a + 1 };
            let kb = if b < idx { b } else { b + 1 };
            assert(rows2[a] == t.rows[ka]);
            assert(rows2[b] == t.rows[kb]);
        }
        assert forall|k: int| 0 <= k < rows2.len() implies (t.next_id matches Some(m) ==> #[trigger] rows2[k].id
            < m) by {
            let j = if k < idx { k } else { k + 1 };
            assert(rows2[k] == t.rows[j]);
        }
    }
}

/// Appending to a post's reply list changes that post's list and nothing
/// else that a read can see.
pub proof fn lemma_link_reads(t: PostTableView, parent: i32, reply: i32)
    requires
        t.contains(parent),
    ensures
        forall|id: i32| #[trigger] t.link(parent, reply).contains(id) == t.contains(id),
        forall|id: i32|
            id != parent && t.contains(id) ==> #[trigger] t.link(parent, reply).row(id) == t.row(id),
        t.link(parent, reply).row(parent) == (PostView {
            reply_id: t.row(parent).reply_id.push(reply),
            ..t.row(parent)
        }),
{
    let idx = t.index_of(parent);
    let t2 = t.link(parent, reply);
    lemma_first_match(t.rows, has_post_id(parent));
    assert forall|id: i32| #[trigger] t2.contains(id) == t.contains(id) && t2.index_of(id) == t.index_of(id) by {
        lemma_first_match_pointwise(t2.rows, has_post_id(id), t.rows, has_post_id(id));
    }
    assert forall|id: i32| id != parent && t.contains(id) implies #[trigger] t2.row(id) == t.row(id) by {
        lemma_first_match_pointwise(t2.rows, has_post_id(id), t.rows, has_post_id(id));
        lemma_first_match(t.rows, has_post_id(id));
    }
    lemma_first_match_pointwise(t2.rows, has_post_id(parent), t.rows, has_post_id(parent));
}

/// A reply written to a post and linked to it is listed last among the
/// post's replies, after the replies it had before (a post that lists
/// itself among its own replies is left out).
pub proof fn lemma_reply_is_listed(
    t: PostTableView,
    parent: i32,
    user_id: i32,
    body: Seq<char>,
    subject: Seq<char>,
    created: i64,
)
    requires
        t.wf(),
        t.next_id is Some,
        t.replies(parent) is Some,
        !t.row(parent).reply_id.contains(parent),
    ensures
        ({
            let n = t.next_id.unwrap();
            let t2 = t.insert(user_id, body, subject, created, true).link(parent, n);
            t2.replies(parent) == Some(
                t.replies(parent).unwrap().push(t.new_row(user_id, body, subject, created, true)),
            )
        }),
{
    let n = t.next_id.unwrap();
    let t1 = t.insert(user_id, body, subject, created, true);
    let t2 = t1.link(parent, n);
    let new_row = t.new_row(user_id, body, subject, created, true);
    lemma_written_post_reads_back(t, user_id, body, subject, created, true);
    assert(parent != n);
    assert(t1.contains(parent));
    lemma_link_reads(t1, parent, n);
    let ids = t.row(parent).reply_id;
    let ids2 = t2.row(parent).reply_id;
    assert(ids2 == ids.push(n));
    assert forall|k: int| 0 <= k < ids2.len() implies t2.contains(#[trigger] ids2[k]) by {
        if k < ids.len() {
            assert(ids2[k] == ids[k]);
            assert(t.contains(ids[k]));
            assert(ids[k] != n);
        }
    }
    let s = t.replies(parent).unwrap();
    assert forall|k: int| 0 <= k < ids2.len() implies #[trigger] t2.row(ids2[k]) == s.push(new_row)[k] by {
        if k < ids.len() {
            assert(ids2[k] == ids[k]);
            assert(t.contains(ids[k]));
            assert(ids[k] != n);
            assert(ids[k] != parent);
        }
    }
    assert(t2.replies(parent).unwrap() =~= s.push(new_row));
}

/// The front page shows at most ten posts, all of them rows of the table
/// that are not replies, newest first; a top-level post left off it is no
/// newer than any post on it, and is left off only when ten are shown.
pub proof fn lemma_front_page(t: PostTableView, shown: Seq<PostView>)
    requires
        first_ten_newest(t.top_level(), shown),
    ensures
        shown.len() == (if t.top_level().len() < 10 { t.top_level().len() } else { 10 }),
        newest_first(shown),
        forall|k: int| 0 <= k < shown.len() ==> t.rows.contains(#[trigger] shown[k]) && !shown[k].reply,
        forall|i: int|
            0 <= i < t.rows.len() && !(#[trigger] t.rows[i]).reply && !shown.contains(t.rows[i]) ==> {
                &&& shown.len() == 10
                &&& forall|k: int| 0 <= k < 10 ==> #[trigger] shown[k].created >= t.rows[i].created
            },
{
    let cands = t.top_level();
    let sorted = choose|sorted: Seq<PostView>|
        #![trigger is_reordering(cands, sorted)]
        is_reordering(cands, sorted) && newest_first(sorted) && shown == sorted.take(
            if sorted.len() < 10 { sorted.len() as int } else { 10 },
        );
    assert forall|k: int| 0 <= k < shown.len() implies t.rows.contains(#[trigger] shown[k]) && !shown[k].reply by {
        lemma_reordering_from(cands, sorted, k);
        let i = choose|i: int| 0 <= i < cands.len() && sorted[k] == cands[i];
        assert(shown[k] == sorted[k]);
        assert(is_top_level()(cands[i]));
        lemma_filter_from(t.rows, is_top_level(), i);
    }
    assert forall|i: int| 0 <= i < t.rows.len() && !(#[trigger] t.rows[i]).reply && !shown.contains(t.rows[i]) implies {
        &&& shown.len() == 10
        &&& forall|k: int| 0 <= k < 10 ==> #[trigger] shown[k].created >= t.rows[i].created
    } by {
        assert(is_top_level()(t.rows[i]));
        assert(cands.contains(t.rows[i]));
        let j = choose|j: int| 0 <= j < cands.len() && cands[j] == t.rows[i];
        lemma_reordering_onto(cands, sorted, j);
        let m = choose|m: int| 0 <= m < sorted.len() && sorted[m] == cands[j];
        if m < shown.len() {
            assert(shown[m] == t.rows[i]);
        }
        assert forall|k: int| 0 <= k < 10 implies #[trigger] shown[k].created >= t.rows[i].created by {
            assert(shown[k] == sorted[k]);
        }
    }
}

/// Every tweet shows up in the full listing; a tweet that answers no other
/// shows up among the thread starters, and an answer shows up among the
/// answers to its parent and not among the thread starters.
pub proof fn lemma_tweet_is_listed(
    t: TweetTableView,
    id: i64,
    all: Seq<TweetView>,
    roots: Seq<TweetView>,
    children: Seq<TweetView>,
)
    requires
        t.contains(id),
        ordered_by_creation(t.select(any_tweet()), all),
        ordered_by_creation(t.select(is_root()), roots),
        t.row(id).parent_id is Some ==> ordered_by_creation(
            t.select(child_of(t.row(id).parent_id.unwrap())),
            children,
        ),
    ensures
        all.contains(t.row(id)),
        t.row(id).parent_id is None ==> roots.contains(t.row(id)),
        t.row(id).parent_id is Some ==> children.contains(t.row(id)) && !roots.contains(t.row(id)),
{
    let row = t.row(id);
    let i = t.index_of(id);
    lemma_first_match(t.rows, crate::models::tweet::has_tweet_id(id));
    assert(any_tweet()(t.rows[i]));
    assert(t.select(any_tweet()).contains(row));
    let j = choose|j: int| 0 <= j < t.select(any_tweet()).len() && t.select(any_tweet())[j] == row;
    lemma_reordering_onto(t.select(any_tweet()), all, j);
    if row.parent_id is None {
        assert(is_root()(t.rows[i]));
        assert(t.select(is_root()).contains(row));
        let j2 = choose|j2: int| 0 <= j2 < t.select(is_root()).len() && t.select(is_root())[j2] == row;
        lemma_reordering_onto(t.select(is_root()), roots, j2);
    } else {
        let p = row.parent_id.unwrap();
        assert(child_of(p)(t.rows[i]));
        assert(t.select(child_of(p)).contains(row));
        let j3 = choose|j3: int| 0 <= j3 < t.select(child_of(p)).len() && t.select(child_of(p))[j3] == row;
        lemma_reordering_onto(t.select(child_of(p)), children, j3);
        if roots.contains(row) {
            let k = choose|k: int| 0 <= k < roots.len() && roots[k] == row;
            lemma_reordering_from(t.select(is_root()), roots, k);
            let x = choose|x: int| 0 <= x < t.select(is_root()).len() && roots[k] == t.select(is_root())[x];
            assert(is_root()(t.select(is_root())[x]));
        }
    }
}

/// A filter of a list sorted oldest first is sorted oldest first.
proof fn lemma_filter_oldest_first(s: Seq<TweetView>, pred: spec_fn(TweetView) -> bool)
    requires
        oldest_first(s),
    ensures
        oldest_first(s.filter(pred)),
    decreases s.len(),
{
    reveal(Seq::filter);
    if s.len() > 0 {
        let d = s.drop_last();
        assert forall|a: int, b: int| 0 <= a < b < d.len() implies #[trigger] d[a].created <= #[trigger] d[b].created by {
            assert(d[a] == s[a] && d[b] == s[b]);
        }
        lemma_filter_oldest_first(d, pred);
        if pred(s.last()) {
            let f = d.filter(pred);
            let g = f.push(s.last());
            assert forall|a: int, b: int| 0 <= a < b < g.len() implies #[trigger] g[a].created
                <= #[trigger] g[b].created by {
                if b == g.len() - 1 {
                    lemma_filter_from(d, pred, a);
                    let i = choose|i: int| 0 <= i < d.len() && d[i] == f[a];
                    assert(s[i] == d[i]);
                }
            }
        }
    }
}

/// Two lists without repeats, holding the same elements and both strictly
/// sorted by creation time, agree on their first `k` positions.
proof fn lemma_sorted_prefix(w: Seq<TweetView>, f: Seq<TweetView>, k: int)
    requires
        w.len() == f.len(),
        0 <= k <= w.len(),
        w.no_duplicates(),
        f.no_duplicates(),
        forall|x: TweetView| w.contains(x) <==> f.contains(x),
        forall|a: int, b: int| 0 <= a < b < w.len() ==> #[trigger] w[a].created < #[trigger] w[b].created,
        forall|a: int, b: int| 0 <= a < b < f.len() ==> #[trigger] f[a].created < #[trigger] f[b].created,
    ensures
        forall|j: int| 0 <= j < k ==> #[trigger] w[j] == f[j],
    decreases k,
{
    if k > 0 {
        lemma_sorted_prefix(w, f, k - 1);
        let x = w[k - 1];
        let y = f[k - 1];
        assert(f.contains(x));
        let m = choose|m: int| 0 <= m < f.len() && f[m] == x;
        assert(w.contains(y));
        let m2 = choose|m2: int| 0 <= m2 < w.len() && w[m2] == y;
        if m < k - 1 {
            assert(w[m] == f[m]);
        } else if m > k - 1 {
            assert(y.created < x.created);
            if m2 < k - 1 {
                assert(w[m2] == f[m2]);
            } else if m2 == k - 1 {
            } else {
                assert(x.created < y.created);
            }
        }
    }
}

/// The tweets of one user, as listed, are those of the full listing that
/// the user wrote, each exactly once; when no two tweets share a creation
/// time they come in the same order as in the full listing.
pub proof fn lemma_user_listing_is_filtered(
    t: TweetTableView,
    u: i32,
    all: Seq<TweetView>,
    mine: Seq<TweetView>,
)
    requires
        t.wf(),
        ordered_by_creation(t.select(any_tweet()), all),
        ordered_by_creation(t.select(by_user(u)), mine),
    ensures
        is_reordering(all.filter(by_user(u)), mine),
        (forall|a: int, b: int| 0 <= a < b < all.len() ==> #[trigger] all[a].created != #[trigger] all[b].created)
            ==> mine == all.filter(by_user(u)),
{
    let rows = t.rows;
    assert(rows.no_duplicates()) by {
        assert forall|i: int, j: int| 0 <= i < rows.len() && 0 <= j < rows.len() && i != j implies rows[i]
            != rows[j] by {
            if i < j {
                assert(rows[i].id != rows[j].id);
            } else {
                assert(rows[j].id != rows[i].id);
            }
        }
    }
    let sa = t.select(any_tweet());
    let sm = t.select(by_user(u));
    lemma_filter_no_dup(rows, any_tweet());
    lemma_filter_no_dup(rows, by_user(u));
    lemma_reordering_no_dup(sa, all);
    lemma_reordering_no_dup(sm, mine);
    let f = all.filter(by_user(u));
    lemma_filter_no_dup(all, by_user(u));
    assert forall|x: TweetView| f.contains(x) <==> mine.contains(x) by {
        lemma_filter_contains_iff(rows, by_user(u), x);
        lemma_filter_contains_iff(rows, any_tweet(), x);
        lemma_filter_contains_iff(all, by_user(u), x);
    }
    lemma_same_elements_reordering(f, mine);
    if forall|a: int, b: int| 0 <= a < b < all.len() ==> #[trigger] all[a].created != #[trigger] all[b].created {
        lemma_filter_oldest_first(all, by_user(u));
        // two different elements of the full listing differ in creation time
        assert forall|x: TweetView, y: TweetView| all.contains(x) && all.contains(y) && x != y implies x.created
            != y.created by {
            let i = choose|i: int| 0 <= i < all.len() && all[i] == x;
            let j = choose|j: int| 0 <= j < all.len() && all[j] == y;
            if i < j {
                assert(all[i].created != all[j].created);
            } else {
                assert(all[j].created != all[i].created);
            }
        }
        assert forall|a: int, b: int| 0 <= a < b < mine.len() implies #[trigger] mine[a].created
            < #[trigger] mine[b].created by {
            assert(mine.contains(mine[a]) && mine.contains(mine[b]));
            lemma_filter_contains_iff(all, by_user(u), mine[a]);
            lemma_filter_contains_iff(all, by_user(u), mine[b]);
            assert(mine[a] != mine[b]);
        }
        assert forall|a: int, b: int| 0 <= a < b < f.len() implies #[trigger] f[a].created
            < #[trigger] f[b].created by {
            assert(f.contains(f[a]) && f.contains(f[b]));
            lemma_filter_contains_iff(all, by_user(u), f[a]);
            lemma_filter_contains_iff(all, by_user(u), f[b]);
            assert(f[a] != f[b]);
        }
        lemma_sorted_prefix(mine, f, mine.len() as int);
        assert(mine =~= f);
    }
}

/// Someone who registers under a username no account had yet can sign in
/// with the same password: the answer is 202 and the session identifies the
/// new account, reading back as its id.
pub proof fn lemma_registered_user_can_log_in(
    t: UserTableView,
    username: Seq<char>,
    password: Seq<char>,
    hash: Seq<char>,
    created: i64,
)
    requires
        t.wf(),
        t.next_id is Some,
        !t.has_name(username),
        phc_parses(hash),
        argon2_accepts(password, hash),
    ensures
        ({
            let n = t.next_id.unwrap();
            let t2 = t.insert(username, hash, created);
            &&& login_hash_readable(t2, username)
            &&& login_outcome(t2, username, password) == (ResponseView {
                status: Status::Accepted,
                payload: PayloadView::Empty,
                session: SessionView::Remember(format_i32(n)),
            })
            &&& parse_i32(format_i32(n)) == Some(n)
        }),
{
    let n = t.next_id.unwrap();
    lemma_first_match_push(t.rows, t.new_row(username, hash, created), has_username(username));
    lemma_identity_round_trip(n);
}

/// A post written under the session that a login hands out is stored
/// under the id of the account that signed in.
pub proof fn lemma_session_posts_as_its_account(
    t: PostTableView,
    user_id: i32,
    body: Seq<char>,
    subject: Seq<char>,
    created: i64,
)
    requires
        t.wf(),
        t.next_id is Some,
    ensures
        identity_readable(Some(format_i32(user_id))),
        create_post_outcome(Some(format_i32(user_id)), t, body, subject, created).1.row(t.next_id.unwrap()).user_id
            == user_id,
{
    lemma_identity_round_trip(user_id);
    lemma_written_post_reads_back(t, user_id, body, subject, created, false);
}

/// In a well-formed table at most one row has a given id.
pub proof fn lemma_user_id_unique(t: UserTableView, x: i32)
    requires
        t.wf(),
    ensures
        forall|a: int, b: int|
            0 <= a < t.rows.len() && 0 <= b < t.rows.len() && has_user_id(x)(#[trigger] t.rows[a]) && has_user_id(x)(
                #[trigger] t.rows[b],
            ) ==> a == b,
{
    assert forall|a: int, b: int|
        0 <= a < t.rows.len() && 0 <= b < t.rows.len() && has_user_id(x)(#[trigger] t.rows[a]) && has_user_id(x)(
            #[trigger] t.rows[b],
        ) implies a == b by {
        if a < b {
            assert(t.rows[a].id != t.rows[b].id);
        } else if b < a {
            assert(t.rows[b].id != t.rows[a].id);
        }
    }
}

/// After an account is deleted it can no longer be found by id, and every
/// other account reads as before.
pub proof fn lemma_deleted_user_is_gone(t: UserTableView, id: i32)
    requires
        t.wf(),
    ensures
        !t.delete(id).contains(id),
        forall|other: i32|
            other != id ==> (#[trigger] t.delete(id).contains(other) == t.contains(other) && (t.contains(other)
                ==> t.delete(id).row(other) == t.row(other))),
{
    lemma_first_match(t.rows, has_user_id(id));
    if t.contains(id) {
        let idx = t.index_of(id);
        lemma_user_id_unique(t, id);
        lemma_first_match_remove(t.rows, idx, has_user_id(id));
        assert forall|other: i32| other != id implies (#[trigger] t.delete(id).contains(other) == t.contains(
            other,
        ) && (t.contains(other) ==> t.delete(id).row(other) == t.row(other))) by {
            lemma_user_id_unique(t, other);
            lemma_first_match_remove(t.rows, idx, has_user_id(other));
            lemma_first_match(t.rows, has_user_id(other));
        }
    }
}

} // verus!
