//! The data model: one module per table, plus password hashing.

pub mod password;
pub mod post;
pub mod tweet;
pub mod user;

use vstd::prelude::*;

verus! {

/// Why a statement against a table failed.
#[derive(Debug, Clone, Copy, PartialEq, Eq, Structural)]
pub enum StoreError {
    /// A query that needs exactly one row found none.
    RowNotFound,
    /// The table's id sequence has handed out its last value.
    SequenceExhausted,
    /// The password could not be hashed.
    HashFailed,
    /// The database could not carry out the statement.
    Database,
}

/// What a statement that changes rows reports back.
#[derive(Debug, Clone, Copy, PartialEq, Eq, Structural)]
pub struct QueryResult {
    /// How many rows the statement inserted, updated or deleted.
    pub rows_affected: u64,
}

/// The id a sequence hands out after `n`, or `None` once `n` is the last one.
pub open spec fn next_serial(n: i32) -> Option<i32> {
    if n == i32::MAX {
        None
    } else {
        Some((n + 1) as i32)
    }
}

/// The value a sequence continues with after the ids `ids`: the largest
/// plus one, 1 for no ids, `None` when the largest is the last value.
pub open spec fn next_after_ids(ids: Seq<i32>) -> Option<i32>
    decreases ids.len(),
{
    if ids.len() == 0 {
        Some(1)
    } else {
        match next_after_ids(ids.drop_last()) {
            None => None,
            Some(n) => if ids.last() < n {
                Some(n)
            } else {
                next_serial(ids.last())
            },
        }
    }
}

/// Every id lies below the value the sequence continues with.
pub proof fn lemma_next_after_ids(ids: Seq<i32>)
    ensures
        next_after_ids(ids) matches Some(n) ==> forall|k: int| 0 <= k < ids.len() ==> #[trigger] ids[k] < n,
    decreases ids.len(),
{
    if ids.len() > 0 {
        lemma_next_after_ids(ids.drop_last());
        assert forall|k: int| 0 <= k < ids.len() - 1 implies ids.drop_last()[k] == ids[k] by {}
    }
}

/// Executable form of `next_serial`.
pub fn advance_serial(n: i32) -> (r: Option<i32>)
    ensures
        r == next_serial(n),
{
    if n == i32::MAX {
        None
    } else {
        Some(n + 1)
    }
}

/// Copies a vector of integers.
pub fn copy_ids(v: &Vec<i32>) -> (r: Vec<i32>)
    ensures
        r@ == v@,
{
    let mut r: Vec<i32> = Vec::new();
    let mut i: usize = 0;
    while i < v.len()
        invariant
            i <= v@.len(),
            r@ == v@.take(i as int),
        decreases v@.len() - i,
    {
        r.push(v[i]);
        i = i + 1;
        proof {
            assert(r@ =~= v@.take(i as int));
        }
    }
    proof {
        assert(v@.take(v@.len() as int) =~= v@);
    }
    r
}

} // verus!
