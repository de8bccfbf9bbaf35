//! The `posts` table: top-level posts and replies. A reply is a post of its
//! own, flagged `reply`, whose id is appended to its parent's `reply_id`.

use vstd::prelude::*;

use super::{advance_serial, lemma_next_after_ids, next_after_ids, copy_ids, next_serial, QueryResult, StoreError};
use crate::ordering::{
    as_ints, first_match, in_order, is_index_perm, is_reordering, lemma_first_match, lemma_first_match_at,
    sort_order,
};

verus! {

/// The fields a client sends to write a post or a reply.
#[derive(Debug, Clone, PartialEq, Eq)]
pub struct PostRequest {
    pub body: String,
    pub subject: String,
}

/// One row of the `posts` table. `created` is the creation time in
/// microseconds since the Unix epoch.
#[derive(Debug, Clone, PartialEq, Eq)]
pub struct Post {
    pub id: i32,
    pub user_id: i32,
    pub body: String,
    pub subject: String,
    pub created: i64,
    pub reply_id: Vec<i32>,
    pub reply: bool,
}

/// The mathematical content of a `Post`.
pub struct PostView {
    pub id: i32,
    pub user_id: i32,
    pub body: Seq<char>,
    pub subject: Seq<char>,
    pub created: i64,
    pub reply_id: Seq<i32>,
    pub reply: bool,
}

impl View for Post {
    type V = PostView;

    open spec fn view(&self) -> PostView {
        PostView {
            id: self.id,
            user_id: self.user_id,
            body: self.body@,
            subject: self.subject@,
            created: self.created,
            reply_id: self.reply_id@,
            reply: self.reply,
        }
    }
}

/// The views of a sequence of posts.
pub open spec fn post_views(rows: Seq<Post>) -> Seq<PostView> {
    rows.map_values(|p: Post| p@)
}

proof fn lemma_post_views_push(rows: Seq<Post>, p: Post)
    ensures
        post_views(rows.push(p)) == post_views(rows).push(p@),
{
    assert(post_views(rows.push(p)) =~= post_views(rows).push(p@));
}

/// Posts that are not replies: those shown on the front page.
pub open spec fn is_top_level() -> spec_fn(PostView) -> bool {
    |p: PostView| !p.reply
}

/// Creation times never increase along `s`.
pub open spec fn newest_first(s: Seq<PostView>) -> bool {
    forall|a: int, b: int| 0 <= a < b < s.len() ==> #[trigger] s[a].created >= #[trigger] s[b].created
}

/// `result` is what `SELECT DISTINCT * ... ORDER BY created DESC FETCH FIRST
/// 10 ROWS ONLY` gives on the rows `candidates`: the first ten (or all, if
/// fewer) of the candidates, newest first. Rows with equal creation times may
/// come in any order.
pub open spec fn first_ten_newest(candidates: Seq<PostView>, result: Seq<PostView>) -> bool {
    exists|sorted: Seq<PostView>|
        #![trigger is_reordering(candidates, sorted)]
        is_reordering(candidates, sorted) && newest_first(sorted) && result == sorted.take(
            if sorted.len() < 10 { sorted.len() as int } else { 10 },
        )
}

/// The `posts` table: its rows, and the id its sequence hands out next
/// (`None` once the sequence is exhausted).
pub struct PostTable {
    rows: Vec<Post>,
    next_id: Option<i32>,
}

/// The mathematical content of a `PostTable`.
pub struct PostTableView {
    pub rows: Seq<PostView>,
    pub next_id: Option<i32>,
}

impl View for PostTable {
    type V = PostTableView;

    closed spec fn view(&self) -> PostTableView {
        PostTableView { rows: post_views(self.rows@), next_id: self.next_id }
    }
}

/// Matches the row with the given id.
pub open spec fn has_post_id(id: i32) -> spec_fn(PostView) -> bool {
    |p: PostView| p.id == id
}

impl PostTableView {
    /// Ids are a primary key, and every id is below the sequence's next value.
    pub open spec fn wf(self) -> bool {
        &&& forall|a: int, b: int|
            0 <= a < b < self.rows.len() ==> #[trigger] self.rows[a].id != #[trigger] self.rows[b].id
        &&& forall|k: int|
            0 <= k < self.rows.len() ==> (self.next_id matches Some(n) ==> #[trigger] self.rows[k].id < n)
    }

    /// Position of the row with id `id`, or -1.
    pub open spec fn index_of(self, id: i32) -> int {
        first_match(self.rows, has_post_id(id))
    }

    pub open spec fn contains(self, id: i32) -> bool {
        self.index_of(id) >= 0
    }

    /// The row with id `id` (meaningful when `contains(id)`).
    pub open spec fn row(self, id: i32) -> PostView {
        self.rows[self.index_of(id)]
    }

    /// The row an insert adds: the sequence's next id, no replies yet.
    pub open spec fn new_row(
        self,
        user_id: i32,
        body: Seq<char>,
        subject: Seq<char>,
        created: i64,
        reply: bool,
    ) -> PostView {
        PostView {
            id: self.next_id.unwrap(),
            user_id,
            body,
            subject,
            created,
            reply_id: Seq::empty(),
            reply,
        }
    }

    /// The table after inserting `new_row(..)` (meaningful when the
    /// sequence is not exhausted).
    pub open spec fn insert(
        self,
        user_id: i32,
        body: Seq<char>,
        subject: Seq<char>,
        created: i64,
        reply: bool,
    ) -> PostTableView {
        PostTableView {
            rows: self.rows.push(self.new_row(user_id, body, subject, created, reply)),
            next_id: next_serial(self.next_id.unwrap()),
        }
    }

    /// `UPDATE posts SET reply_id = array_append(reply_id, reply) WHERE id = parent`.
    pub open spec fn link(self, parent: i32, reply: i32) -> PostTableView {
        if self.contains(parent) {
            let p = self.row(parent);
            PostTableView {
                rows: self.rows.update(
                    self.index_of(parent),
                    PostView { reply_id: p.reply_id.push(reply), ..p },
                ),
                next_id: self.next_id,
            }
        } else {
            self
        }
    }

    /// `DELETE FROM posts WHERE id = id`.
    pub open spec fn delete(self, id: i32) -> PostTableView {
        if self.contains(id) {
            PostTableView { rows: self.rows.remove(self.index_of(id)), next_id: self.next_id }
        } else {
            self
        }
    }

    /// The replies of post `id`, in the order of its `reply_id` list, or
    /// `None` when the post or one of its replies is missing.
    pub open spec fn replies(self, id: i32) -> Option<Seq<PostView>> {
        if !self.contains(id) {
            None
        } else {
            let ids = self.row(id).reply_id;
            if forall|k: int| 0 <= k < ids.len() ==> self.contains(#[trigger] ids[k]) {
                Some(Seq::new(ids.len(), |k: int| self.row(ids[k])))
            } else {
                None
            }
        }
    }

    /// The rows that are not replies, in table order.
    pub open spec fn top_level(self) -> Seq<PostView> {
        self.rows.filter(is_top_level())
    }
}

/// The ids of `rows`, in table order.
pub open spec fn post_ids(rows: Seq<PostView>) -> Seq<i32> {
    rows.map_values(|r: PostView| r.id)
}

impl Post {
    /// A field-by-field copy of the row.
    pub fn copy(&self) -> (r: Post)
        ensures
            r@ == self@,
    {
        Post {
            id: self.id,
            user_id: self.user_id,
            body: self.body.clone(),
            subject: self.subject.clone(),
            created: self.created,
            reply_id: copy_ids(&self.reply_id),
            reply: self.reply,
        }
    }
}

impl PostTable {
    /// An empty table whose sequence starts at 1.
    pub fn new() -> (t: PostTable)
        ensures
            t@.rows == Seq::<PostView>::empty(),
            t@.next_id == Some(1i32),
            t@.wf(),
    {
        PostTable { rows: Vec::new(), next_id: Some(1) }
    }

    /// The table holding `rows`, with the sequence continuing after the
    /// largest id; `None` when two rows share an id. The sequence's own
    /// position is not among the rows: once the newest row has been deleted,
    /// a table rebuilt this way hands its id out again, which a database
    /// sequence never does. A rebuilt table is meant for reading.
    pub fn from_rows(rows: Vec<Post>) -> (t: Option<PostTable>)
        ensures
            match t {
                Some(t) => t@.rows == post_views(rows@) && t@.next_id == next_after_ids(post_ids(post_views(rows@)))
                    && t@.wf(),
                None => exists|a: int, b: int|
                    0 <= a < b < rows@.len() && #[trigger] rows@[a].id == #[trigger] rows@[b].id,
            },
    {
        let n = rows.len();
        let mut next: Option<i32> = Some(1);
        let mut i: usize = 0;
        while i < n
            invariant
                i <= n,
                n == rows@.len(),
                next == next_after_ids(post_ids(post_views(rows@)).take(i as int)),
                forall|a: int, b: int| 0 <= a < b < i ==> #[trigger] rows@[a].id != #[trigger] rows@[b].id,
            decreases n - i,
        {
            let id = rows[i].id;
            let mut j: usize = 0;
            while j < i
                invariant
                    j <= i,
                    i < n,
                    n == rows@.len(),
                    id == rows@[i as int].id,
                    forall|a: int| 0 <= a < j ==> (#[trigger] rows@[a]).id != id,
                decreases i - j,
            {
                if rows[j].id == id {
                    return None;
                }
                j = j + 1;
            }
            proof {
                assert(post_ids(post_views(rows@)).take(i + 1).drop_last() =~= post_ids(post_views(rows@)).take(i as int));
                assert(post_ids(post_views(rows@)).take(i + 1).last() == id);
            }
            next = match next {
                None => None,
                Some(m) => if id < m {
                    Some(m)
                } else {
                    advance_serial(id)
                },
            };
            i = i + 1;
        }
        proof {
            assert(post_ids(post_views(rows@)).take(n as int) =~= post_ids(post_views(rows@)));
            lemma_next_after_ids(post_ids(post_views(rows@)));
            if next is Some {
                assert forall|k: int| 0 <= k < rows@.len() implies #[trigger] post_views(rows@)[k].id < next.unwrap() by {
                    assert(post_ids(post_views(rows@))[k] == rows@[k].id);
                }
            }
        }
        Some(PostTable { rows, next_id: next })
    }

    /// The rows, in table order.
    pub fn rows(&self) -> (r: &Vec<Post>)
        ensures
            post_views(r@) == self@.rows,
    {
        &self.rows
    }

    /// Position of the row with id `id`.
    fn find(&self, id: i32) -> (r: Option<usize>)
        ensures
            match r {
                Some(k) => k as int == self@.index_of(id) && k < self.rows@.len(),
                None => self@.index_of(id) == -1,
            },
    {
        let mut i: usize = 0;
        while i < self.rows.len()
            invariant
                i <= self.rows@.len(),
                forall|a: int| 0 <= a < i ==> (#[trigger] self.rows@[a]).id != id,
            decreases self.rows@.len() - i,
        {
            if self.rows[i].id == id {
                proof {
                    lemma_first_match_at(self@.rows, has_post_id(id), i as int);
                }
                return Some(i);
            }
            i = i + 1;
        }
        proof {
            lemma_first_match(self@.rows, has_post_id(id));
            assert forall|a: int| 0 <= a < self@.rows.len() implies !has_post_id(id)(#[trigger] self@.rows[a]) by {
                assert(self.rows@[a].id != id);
            }
        }
        None
    }

    /// Appends a row with the sequence's next id.
    fn insert_row(&mut self, user_id: i32, body: String, subject: String, created: i64, reply: bool) -> (r: Option<i32>)
        requires
            old(self)@.wf(),
        ensures
            final(self)@.wf(),
            match old(self)@.next_id {
                None => r is None && final(self)@ == old(self)@,
                Some(n) => r == Some(n) && final(self)@ == old(self)@.insert(user_id, body@, subject@, created, reply),
            },
    {
        match self.next_id {
            None => None,
            Some(id) => {
                let ghost old_rows = self.rows@;
                let row = Post { id, user_id, body, subject, created, reply_id: Vec::new(), reply };
                self.rows.push(row);
                self.next_id = advance_serial(id);
                proof {
                    lemma_post_views_push(old_rows, row);
                    assert(row@ == old(self)@.new_row(user_id, body@, subject@, created, reply));
                }
                Some(id)
            },
        }
    }
}

impl Post {
    /// `SELECT DISTINCT * FROM posts WHERE reply = false ORDER BY created
    /// DESC FETCH FIRST 10 ROWS ONLY`: the ten newest posts that are not
    /// replies.
    pub fn get_top_ten(posts: &PostTable) -> (r: Vec<Post>)
        ensures
            first_ten_newest(posts@.top_level(), post_views(r@)),
    {
        let rows = posts.rows();
        let n = rows.len();
        let mut candidates: Vec<Post> = Vec::new();
        let mut keys: Vec<i64> = Vec::new();
        let mut i: usize = 0;
        while i < n
            invariant
                i <= n,
                n == rows@.len(),
                post_views(rows@) == posts@.rows,
                post_views(candidates@) == post_views(rows@).take(i as int).filter(is_top_level()),
                keys@.len() == candidates@.len(),
                forall|k: int| 0 <= k < keys@.len() ==> #[trigger] keys@[k] == candidates@[k].created,
            decreases n - i,
        {
            proof {
                reveal(Seq::filter);
                let s = post_views(rows@).take(i + 1);
                assert(s.drop_last() =~= post_views(rows@).take(i as int));
                assert(s.last() == rows@[i as int]@);
                assert(is_top_level()(s.last()) == !rows@[i as int].reply);
                assert(s.filter(is_top_level()) == if is_top_level()(s.last()) {
                    s.drop_last().filter(is_top_level()).push(s.last())
                } else {
                    s.drop_last().filter(is_top_level())
                });
            }
            if !rows[i].reply {
                let c = rows[i].copy();
                proof {
                    lemma_post_views_push(candidates@, c);
                }
                keys.push(c.created);
                candidates.push(c);
            }
            i = i + 1;
        }
        proof {
            assert(post_views(rows@).take(n as int) =~= post_views(rows@));
        }
        let order = sort_order(&keys, true);
        let m = order.len();
        let limit: usize = if m < 10 { m } else { 10 };
        let mut result: Vec<Post> = Vec::new();
        let ghost cands = post_views(candidates@);
        let ghost sorted = Seq::new(m as nat, |k: int| cands[order@[k] as int]);
        let mut k: usize = 0;
        while k < limit
            invariant
                k <= limit,
                limit <= m,
                m == order@.len(),
                m == candidates@.len(),
                cands == post_views(candidates@),
                sorted == Seq::new(m as nat, |k: int| cands[order@[k] as int]),
                is_index_perm(as_ints(order@), keys@.len()),
                post_views(result@) == sorted.take(k as int),
            decreases limit - k,
        {
            let j = order[k];
            proof {
                assert(as_ints(order@)[k as int] == j as int);
            }
            let c = candidates[j].copy();
            proof {
                lemma_post_views_push(result@, c);
                assert(sorted.take(k + 1) =~= sorted.take(k as int).push(c@));
            }
            result.push(c);
            k = k + 1;
        }
        proof {
            assert forall|x: int| 0 <= x < sorted.len() implies #[trigger] sorted[x] == cands[as_ints(order@)[x]] by {}
            assert(is_reordering(cands, sorted));
            assert forall|a: int, b: int| 0 <= a < b < sorted.len() implies #[trigger] sorted[a].created
                >= #[trigger] sorted[b].created by {
                assert(in_order(keys@[order@[a] as int], keys@[order@[b] as int], true));
            }
        }
        result
    }

    /// `SELECT * FROM posts WHERE id = post_id`, which fails when no row matches.
    pub fn get_post(post_id: i32, posts: &PostTable) -> (r: Result<Post, StoreError>)
        ensures
            posts@.contains(post_id) ==> (r matches Ok(p) && p@ == posts@.row(post_id)),
            !posts@.contains(post_id) ==> r == Err::<Post, StoreError>(StoreError::RowNotFound),
    {
        match posts.find(post_id) {
            Some(k) => Ok(posts.rows[k].copy()),
            None => Err(StoreError::RowNotFound),
        }
    }

    /// `INSERT INTO posts (body, subject, user_id, reply_id)` with an empty
    /// reply list; the row gets the sequence's next id and `created` as its
    /// creation time. Fails, changing nothing, once the sequence is exhausted.
    pub fn create_post(user_id: i32, post: PostRequest, posts: &mut PostTable, created: i64) -> (r: Result<
        QueryResult,
        StoreError,
    >)
        requires
            old(posts)@.wf(),
        ensures
            final(posts)@.wf(),
            old(posts)@.next_id is Some ==> r == Ok::<QueryResult, StoreError>(QueryResult { rows_affected: 1 })
                && final(posts)@ == old(posts)@.insert(user_id, post.body@, post.subject@, created, false),
            old(posts)@.next_id is None ==> r == Err::<QueryResult, StoreError>(StoreError::SequenceExhausted)
                && final(posts)@ == old(posts)@,
    {
        match posts.insert_row(user_id, post.body, post.subject, created, false) {
            Some(_) => Ok(QueryResult { rows_affected: 1 }),
            None => Err(StoreError::SequenceExhausted),
        }
    }

    /// `INSERT INTO posts (body, subject, user_id, reply_id, reply) ...
    /// RETURNING id` with `reply` set: returns the new row's id.
    pub fn create_reply(user_id: i32, post: PostRequest, posts: &mut PostTable, created: i64) -> (r: Result<
        i32,
        StoreError,
    >)
        requires
            old(posts)@.wf(),
        ensures
            final(posts)@.wf(),
            old(posts)@.next_id is Some ==> r == Ok::<i32, StoreError>(old(posts)@.next_id.unwrap())
                && final(posts)@ == old(posts)@.insert(user_id, post.body@, post.subject@, created, true),
            old(posts)@.next_id is None ==> r == Err::<i32, StoreError>(StoreError::SequenceExhausted)
                && final(posts)@ == old(posts)@,
    {
        match posts.insert_row(user_id, post.body, post.subject, created, true) {
            Some(id) => Ok(id),
            None => Err(StoreError::SequenceExhausted),
        }
    }

    /// `UPDATE posts SET reply_id = array_append(reply_id, reply_id) WHERE
    /// id = parent_id`: one row changes if the parent exists, none otherwise.
    pub fn link_reply(parent_id: i32, reply_id: i32, posts: &mut PostTable) -> (r: Result<
        QueryResult,
        StoreError,
    >)
        requires
            old(posts)@.wf(),
        ensures
            final(posts)@.wf(),
            final(posts)@ == old(posts)@.link(parent_id, reply_id),
            r == Ok::<QueryResult, StoreError>(
                QueryResult { rows_affected: if old(posts)@.contains(parent_id) { 1 } else { 0 } },
            ),
    {
        match posts.find(parent_id) {
            None => Ok(QueryResult { rows_affected: 0 }),
            Some(k) => {
                let ghost old_rows = posts.rows@;
                let mut row = posts.rows.remove(k);
                row.reply_id.push(reply_id);
                posts.rows.insert(k, row);
                proof {
                    assert(posts@.rows =~= old(posts)@.link(parent_id, reply_id).rows);
                }
                Ok(QueryResult { rows_affected: 1 })
            },
        }
    }

    /// `DELETE FROM posts WHERE id = post_id`: one row goes if it exists,
    /// none otherwise.
    pub fn delete_post(post_id: i32, posts: &mut PostTable) -> (r: Result<QueryResult, StoreError>)
        requires
            old(posts)@.wf(),
        ensures
            final(posts)@.wf(),
            final(posts)@ == old(posts)@.delete(post_id),
            r == Ok::<QueryResult, StoreError>(
                QueryResult { rows_affected: if old(posts)@.contains(post_id) { 1 } else { 0 } },
            ),
    {
        match posts.find(post_id) {
            None => Ok(QueryResult { rows_affected: 0 }),
            Some(k) => {
                posts.rows.remove(k);
                proof {
                    assert(posts@.rows =~= old(posts)@.delete(post_id).rows);
                }
                Ok(QueryResult { rows_affected: 1 })
            },
        }
    }

    /// `SELECT user_id FROM posts WHERE id = post_id`: the author of the post.
    pub fn get_user_id(post_id: i32, posts: &PostTable) -> (r: Result<i32, StoreError>)
        ensures
            posts@.contains(post_id) ==> r == Ok::<i32, StoreError>(posts@.row(post_id).user_id),
            !posts@.contains(post_id) ==> r == Err::<i32, StoreError>(StoreError::RowNotFound),
    {
        match posts.find(post_id) {
            Some(k) => Ok(posts.rows[k].user_id),
            None => Err(StoreError::RowNotFound),
        }
    }

    /// The replies of a post, fetched one by one in the order of its
    /// `reply_id` list; fails when the post or any listed reply is missing.
    pub fn get_replies(post_id: i32, posts: &PostTable) -> (r: Result<Vec<Post>, StoreError>)
        ensures
            match posts@.replies(post_id) {
                Some(s) => r matches Ok(v) && post_views(v@) == s,
                None => r == Err::<Vec<Post>, StoreError>(StoreError::RowNotFound),
            },
    {
        let k = match posts.find(post_id) {
            Some(k) => k,
            None => return Err(StoreError::RowNotFound),
        };
        let ids = &posts.rows[k].reply_id;
        let ghost table = posts@;
        let mut replies: Vec<Post> = Vec::new();
        let mut i: usize = 0;
        while i < ids.len()
            invariant
                i <= ids@.len(),
                table == posts@,
                table.contains(post_id),
                ids@ == table.row(post_id).reply_id,
                forall|a: int| 0 <= a < i ==> table.contains(#[trigger] ids@[a]),
                post_views(replies@) == Seq::new(i as nat, |a: int| table.row(ids@[a])),
            decreases ids@.len() - i,
        {
            match posts.find(ids[i]) {
                Some(j) => {
                    let c = posts.rows[j].copy();
                    proof {
                        lemma_post_views_push(replies@, c);
                        assert(post_views(replies@).push(c@) =~= Seq::new(
                            (i + 1) as nat,
                            |a: int| table.row(ids@[a]),
                        ));
                    }
                    replies.push(c);
                },
                None => {
                    proof {
                        assert(!table.contains(ids@[i as int]));
                    }
                    return Err(StoreError::RowNotFound);
                },
            }
            i = i + 1;
        }
        proof {
            assert(post_views(replies@) =~= table.replies(post_id).unwrap());
        }
        Ok(replies)
    }
}

} // verus!
