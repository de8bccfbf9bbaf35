//! The `tweets` table: short messages that may answer another tweet
//! through `parent_id`. Every listing comes oldest first.

use vstd::prelude::*;

use super::{QueryResult, StoreError};
use crate::ordering::{
    as_ints, first_match, in_order, is_index_perm, is_reordering, lemma_first_match, lemma_first_match_at,
    sort_order,
};

verus! {

/// The fields of a tweet as a client sends them.
#[derive(Debug, Clone, PartialEq, Eq)]
pub struct TweetRequest {
    pub body: String,
    pub parent_id: Option<i64>,
    pub user_id: i32,
}

/// One row of the `tweets` table. `created` is the creation time in
/// microseconds since the Unix epoch.
#[derive(Debug, Clone, PartialEq, Eq)]
pub struct Tweet {
    pub id: i64,
    pub body: String,
    pub parent_id: Option<i64>,
    pub created: i64,
    pub user_id: i32,
}

/// The mathematical content of a `Tweet`.
pub struct TweetView {
    pub id: i64,
    pub body: Seq<char>,
    pub parent_id: Option<i64>,
    pub created: i64,
    pub user_id: i32,
}

impl View for Tweet {
    type V = TweetView;

    open spec fn view(&self) -> TweetView {
        TweetView {
            id: self.id,
            body: self.body@,
            parent_id: self.parent_id,
            created: self.created,
            user_id: self.user_id,
        }
    }
}

impl Tweet {
    /// A field-by-field copy of the row.
    pub fn copy(&self) -> (r: Tweet)
        ensures
            r@ == self@,
    {
        Tweet {
            id: self.id,
            body: self.body.clone(),
            parent_id: self.parent_id,
            created: self.created,
            user_id: self.user_id,
        }
    }
}

/// The views of a sequence of tweets.
pub open spec fn tweet_views(rows: Seq<Tweet>) -> Seq<TweetView> {
    rows.map_values(|t: Tweet| t@)
}

proof fn lemma_tweet_views_push(rows: Seq<Tweet>, t: Tweet)
    ensures
        tweet_views(rows.push(t)) == tweet_views(rows).push(t@),
{
    assert(tweet_views(rows.push(t)) =~= tweet_views(rows).push(t@));
}

/// Creation times never decrease along `s`.
pub open spec fn oldest_first(s: Seq<TweetView>) -> bool {
    forall|a: int, b: int| 0 <= a < b < s.len() ==> #[trigger] s[a].created <= #[trigger] s[b].created
}

/// `result` is what `... ORDER BY created` gives on the rows `candidates`:
/// each of them exactly once, oldest first. Rows with equal creation times
/// may come in any order.
pub open spec fn ordered_by_creation(candidates: Seq<TweetView>, result: Seq<TweetView>) -> bool {
    is_reordering(candidates, result) && oldest_first(result)
}

/// Every tweet.
pub open spec fn any_tweet() -> spec_fn(TweetView) -> bool {
    |t: TweetView| true
}

/// Tweets written by `user_id`.
pub open spec fn by_user(user_id: i32) -> spec_fn(TweetView) -> bool {
    |t: TweetView| t.user_id == user_id
}

/// Tweets that answer no other tweet.
pub open spec fn is_root() -> spec_fn(TweetView) -> bool {
    |t: TweetView| t.parent_id is None
}

/// Tweets that answer `parent_id`.
pub open spec fn child_of(parent_id: i64) -> spec_fn(TweetView) -> bool {
    |t: TweetView| t.parent_id == Some(parent_id)
}

/// Matches the row with the given id.
pub open spec fn has_tweet_id(id: i64) -> spec_fn(TweetView) -> bool {
    |t: TweetView| t.id == id
}

/// The `tweets` table.
pub struct TweetTable {
    rows: Vec<Tweet>,
}

/// The mathematical content of a `TweetTable`.
pub struct TweetTableView {
    pub rows: Seq<TweetView>,
}

impl View for TweetTable {
    type V = TweetTableView;

    closed spec fn view(&self) -> TweetTableView {
        TweetTableView { rows: tweet_views(self.rows@) }
    }
}

impl TweetTableView {
    /// Ids are a primary key.
    pub open spec fn wf(self) -> bool {
        forall|a: int, b: int|
            0 <= a < b < self.rows.len() ==> #[trigger] self.rows[a].id != #[trigger] self.rows[b].id
    }

    /// Position of the row with id `id`, or -1.
    pub open spec fn index_of(self, id: i64) -> int {
        first_match(self.rows, has_tweet_id(id))
    }

    pub open spec fn contains(self, id: i64) -> bool {
        self.index_of(id) >= 0
    }

    /// The row with id `id` (meaningful when `contains(id)`).
    pub open spec fn row(self, id: i64) -> TweetView {
        self.rows[self.index_of(id)]
    }

    /// `DELETE FROM tweets WHERE id = id`.
    pub open spec fn delete(self, id: i64) -> TweetTableView {
        if self.contains(id) {
            TweetTableView { rows: self.rows.remove(self.index_of(id)) }
        } else {
            self
        }
    }

    /// The rows that satisfy `pred`, in table order.
    pub open spec fn select(self, pred: spec_fn(TweetView) -> bool) -> Seq<TweetView> {
        self.rows.filter(pred)
    }
}

/// Which rows a listing selects.
enum Selection {
    All,
    ByUser(i32),
    Roots,
    ChildrenOf(i64),
}

impl Selection {
    spec fn pred(self) -> spec_fn(TweetView) -> bool {
        match self {
            Selection::All => any_tweet(),
            Selection::ByUser(u) => by_user(u),
            Selection::Roots => is_root(),
            Selection::ChildrenOf(p) => child_of(p),
        }
    }

    fn accepts(&self, t: &Tweet) -> (r: bool)
        ensures
            r == self.pred()(t@),
    {
        match self {
            Selection::All => true,
            Selection::ByUser(u) => t.user_id == *u,
            Selection::Roots => t.parent_id.is_none(),
            Selection::ChildrenOf(p) => match t.parent_id {
                Some(q) => q == *p,
                None => false,
            },
        }
    }
}

impl TweetTable {
    /// An empty table.
    pub fn new() -> (t: TweetTable)
        ensures
            t@.rows == Seq::<TweetView>::empty(),
            t@.wf(),
    {
        TweetTable { rows: Vec::new() }
    }

    /// The table holding `rows`; `None` when two rows share an id.
    pub fn from_rows(rows: Vec<Tweet>) -> (t: Option<TweetTable>)
        ensures
            match t {
                Some(t) => t@.rows == tweet_views(rows@) && t@.wf(),
                None => exists|a: int, b: int|
                    0 <= a < b < rows@.len() && #[trigger] rows@[a].id == #[trigger] rows@[b].id,
            },
    {
        let n = rows.len();
        let mut i: usize = 0;
        while i < n
            invariant
                i <= n,
                n == rows@.len(),
                forall|a: int, b: int| 0 <= a < b < i ==> #[trigger] rows@[a].id != #[trigger] rows@[b].id,
            decreases n - i,
        {
            let id = rows[i].id;
            let mut j: usize = 0;
            while j < i
                invariant
                    j <= i,
                    i < n,
                    n == rows@.len(),
                    id == rows@[i as int].id,
                    forall|a: int| 0 <= a < j ==> (#[trigger] rows@[a]).id != id,
                decreases i - j,
            {
                if rows[j].id == id {
                    return None;
                }
                j = j + 1;
            }
            i = i + 1;
        }
        Some(TweetTable { rows })
    }

    /// The rows, in table order.
    pub fn rows(&self) -> (r: &Vec<Tweet>)
        ensures
            tweet_views(r@) == self@.rows,
    {
        &self.rows
    }

    /// Position of the row with id `id`.
    fn find(&self, id: i64) -> (r: Option<usize>)
        ensures
            match r {
                Some(k) => k as int == self@.index_of(id) && k < self.rows@.len(),
                None => self@.index_of(id) == -1,
            },
    {
        let mut i: usize = 0;
        while i < self.rows.len()
            invariant
                i <= self.rows@.len(),
                forall|a: int| 0 <= a < i ==> (#[trigger] self.rows@[a]).id != id,
            decreases self.rows@.len() - i,
        {
            if self.rows[i].id == id {
                proof {
                    lemma_first_match_at(self@.rows, has_tweet_id(id), i as int);
                }
                return Some(i);
            }
            i = i + 1;
        }
        proof {
            lemma_first_match(self@.rows, has_tweet_id(id));
            assert forall|a: int| 0 <= a < self@.rows.len() implies !has_tweet_id(id)(#[trigger] self@.rows[a]) by {
                assert(self.rows@[a].id != id);
            }
        }
        None
    }

    /// The rows that `sel` selects, oldest first.
    fn select(&self, sel: Selection) -> (r: Vec<Tweet>)
        ensures
            ordered_by_creation(self@.select(sel.pred()), tweet_views(r@)),
    {
        let n = self.rows.len();
        let mut candidates: Vec<Tweet> = Vec::new();
        let mut keys: Vec<i64> = Vec::new();
        let mut i: usize = 0;
        while i < n
            invariant
                i <= n,
                n == self.rows@.len(),
                tweet_views(candidates@) == tweet_views(self.rows@).take(i as int).filter(sel.pred()),
                keys@.len() == candidates@.len(),
                forall|k: int| 0 <= k < keys@.len() ==> #[trigger] keys@[k] == candidates@[k].created,
            decreases n - i,
        {
            proof {
                reveal(Seq::filter);
                let s = tweet_views(self.rows@).take(i + 1);
                assert(s.drop_last() =~= tweet_views(self.rows@).take(i as int));
                assert(s.last() == self.rows@[i as int]@);
                assert(s.filter(sel.pred()) == if sel.pred()(s.last()) {
                    s.drop_last().filter(sel.pred()).push(s.last())
                } else {
                    s.drop_last().filter(sel.pred())
                });
            }
            if sel.accepts(&self.rows[i]) {
                let c = self.rows[i].copy();
                proof {
                    lemma_tweet_views_push(candidates@, c);
                }
                keys.push(c.created);
                candidates.push(c);
            }
            i = i + 1;
        }
        proof {
            assert(tweet_views(self.rows@).take(n as int) =~= tweet_views(self.rows@));
        }
        let order = sort_order(&keys, false);
        let m = order.len();
        let mut result: Vec<Tweet> = Vec::new();
        let ghost cands = tweet_views(candidates@);
        let ghost sorted = Seq::new(m as nat, |k: int| cands[order@[k] as int]);
        let mut k: usize = 0;
        while k < m
            invariant
                k <= m,
                m == order@.len(),
                m == candidates@.len(),
                cands == tweet_views(candidates@),
                sorted == Seq::new(m as nat, |k: int| cands[order@[k] as int]),
                is_index_perm(as_ints(order@), keys@.len()),
                tweet_views(result@) == sorted.take(k as int),
            decreases m - k,
        {
            let j = order[k];
            proof {
                assert(as_ints(order@)[k as int] == j as int);
            }
            let c = candidates[j].copy();
            proof {
                lemma_tweet_views_push(result@, c);
                assert(sorted.take(k + 1) =~= sorted.take(k as int).push(c@));
            }
            result.push(c);
            k = k + 1;
        }
        proof {
            assert(sorted.take(m as int) =~= sorted);
            assert forall|x: int| 0 <= x < sorted.len() implies #[trigger] sorted[x] == cands[as_ints(order@)[x]] by {}
            assert(is_reordering(cands, sorted));
            assert forall|a: int, b: int| 0 <= a < b < sorted.len() implies #[trigger] sorted[a].created
                <= #[trigger] sorted[b].created by {
                assert(in_order(keys@[order@[a] as int], keys@[order@[b] as int], false));
            }
        }
        result
    }
}

impl Tweet {
    /// `SELECT * FROM tweets ORDER BY created`: every tweet, oldest first.
    pub fn find_all(tweets: &TweetTable) -> (r: Vec<Tweet>)
        ensures
            ordered_by_creation(tweets@.select(any_tweet()), tweet_views(r@)),
    {
        tweets.select(Selection::All)
    }

    /// `SELECT * FROM tweets WHERE user_id = user_id ORDER BY created`.
    pub fn find_by_user(user_id: i32, tweets: &TweetTable) -> (r: Vec<Tweet>)
        ensures
            ordered_by_creation(tweets@.select(by_user(user_id)), tweet_views(r@)),
    {
        tweets.select(Selection::ByUser(user_id))
    }

    /// `SELECT * FROM tweets WHERE id = id`, which fails when no row matches.
    pub fn find_by_id(id: i64, tweets: &TweetTable) -> (r: Result<Tweet, StoreError>)
        ensures
            tweets@.contains(id) ==> (r matches Ok(t) && t@ == tweets@.row(id)),
            !tweets@.contains(id) ==> r == Err::<Tweet, StoreError>(StoreError::RowNotFound),
    {
        match tweets.find(id) {
            Some(k) => Ok(tweets.rows[k].copy()),
            None => Err(StoreError::RowNotFound),
        }
    }

    /// `DELETE FROM tweets WHERE id = id`: one row goes if it exists, none otherwise.
    pub fn delete(id: i64, tweets: &mut TweetTable) -> (r: Result<QueryResult, StoreError>)
        requires
            old(tweets)@.wf(),
        ensures
            final(tweets)@.wf(),
            final(tweets)@ == old(tweets)@.delete(id),
            r == Ok::<QueryResult, StoreError>(
                QueryResult { rows_affected: if old(tweets)@.contains(id) { 1 } else { 0 } },
            ),
    {
        match tweets.find(id) {
            None => Ok(QueryResult { rows_affected: 0 }),
            Some(k) => {
                tweets.rows.remove(k);
                proof {
                    assert(tweets@.rows =~= old(tweets)@.delete(id).rows);
                }
                Ok(QueryResult { rows_affected: 1 })
            },
        }
    }

    /// `SELECT * FROM tweets WHERE parent_id IS NULL ORDER BY created`: the
    /// tweets that start a thread.
    pub fn parents(tweets: &TweetTable) -> (r: Vec<Tweet>)
        ensures
            ordered_by_creation(tweets@.select(is_root()), tweet_views(r@)),
    {
        tweets.select(Selection::Roots)
    }

    /// `SELECT * FROM tweets WHERE parent_id = parent_id ORDER BY created`:
    /// the answers to a tweet.
    pub fn get_children(parent_id: i64, tweets: &TweetTable) -> (r: Vec<Tweet>)
        ensures
            ordered_by_creation(tweets@.select(child_of(parent_id)), tweet_views(r@)),
    {
        tweets.select(Selection::ChildrenOf(parent_id))
    }

    /// `SELECT * FROM tweets WHERE id = parent_id`: the tweet that another
    /// one answers.
    pub fn get_parent(parent_id: i64, tweets: &TweetTable) -> (r: Result<Tweet, StoreError>)
        ensures
            tweets@.contains(parent_id) ==> (r matches Ok(t) && t@ == tweets@.row(parent_id)),
            !tweets@.contains(parent_id) ==> r == Err::<Tweet, StoreError>(StoreError::RowNotFound),
    {
        Tweet::find_by_id(parent_id, tweets)
    }
}

} // verus!
