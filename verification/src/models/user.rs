//! The `users` table: accounts with a username and an Argon2 password
//! hash. Lookups by username take the first matching row.

use vstd::prelude::*;

use super::password::{
    argon2_accepts, argon2_phc, hash_password, hashable_password, hashed_under, is_default_phc, is_drawn_salt,
    phc_parses,
};
use super::{advance_serial, lemma_next_after_ids, next_after_ids, next_serial, QueryResult, StoreError};
use crate::ordering::{first_match, lemma_first_match, lemma_first_match_at};

verus! {

/// Credentials as a client sends them.
#[derive(Debug, Clone, PartialEq, Eq)]
pub struct UserRequest {
    pub username: String,
    pub password: String,
}

/// One row of the `users` table. `created` is the creation time in
/// microseconds since the Unix epoch.
#[derive(Debug, Clone, PartialEq, Eq)]
pub struct User {
    pub id: i32,
    pub username: String,
    pub password_hash: String,
    pub created: i64,
}

/// A username on its own.
#[derive(Debug, Clone, PartialEq, Eq)]
pub struct UserName {
    pub username: String,
}

/// A user id on its own.
#[derive(Debug, Clone, Copy, PartialEq, Eq, Structural)]
pub struct UserID {
    pub id: i32,
}

/// The mathematical content of a `User`.
pub struct UserView {
    pub id: i32,
    pub username: Seq<char>,
    pub password_hash: Seq<char>,
    pub created: i64,
}

impl View for User {
    type V = UserView;

    open spec fn view(&self) -> UserView {
        UserView {
            id: self.id,
            username: self.username@,
            password_hash: self.password_hash@,
            created: self.created,
        }
    }
}

impl User {
    /// A field-by-field copy of the row.
    pub fn copy(&self) -> (r: User)
        ensures
            r@ == self@,
    {
        User {
            id: self.id,
            username: self.username.clone(),
            password_hash: self.password_hash.clone(),
            created: self.created,
        }
    }
}

/// The views of a sequence of users.
pub open spec fn user_views(rows: Seq<User>) -> Seq<UserView> {
    rows.map_values(|u: User| u@)
}

/// Matches the row with the given id.
pub open spec fn has_user_id(id: i32) -> spec_fn(UserView) -> bool {
    |u: UserView| u.id == id
}

/// Matches the rows with the given username.
pub open spec fn has_username(name: Seq<char>) -> spec_fn(UserView) -> bool {
    |u: UserView| u.username == name
}

/// The `users` table: its rows, and the id its sequence hands out next
/// (`None` once the sequence is exhausted).
pub struct UserTable {
    rows: Vec<User>,
    next_id: Option<i32>,
}

/// The mathematical content of a `UserTable`.
pub struct UserTableView {
    pub rows: Seq<UserView>,
    pub next_id: Option<i32>,
}

impl View for UserTable {
    type V = UserTableView;

    closed spec fn view(&self) -> UserTableView {
        UserTableView { rows: user_views(self.rows@), next_id: self.next_id }
    }
}

impl UserTableView {
    /// Ids are a primary key, and every id is below the sequence's next value.
    pub open spec fn wf(self) -> bool {
        &&& forall|a: int, b: int|
            0 <= a < b < self.rows.len() ==> #[trigger] self.rows[a].id != #[trigger] self.rows[b].id
        &&& forall|k: int|
            0 <= k < self.rows.len() ==> (self.next_id matches Some(n) ==> #[trigger] self.rows[k].id < n)
    }

    /// Position of the row with id `id`, or -1.
    pub open spec fn index_of(self, id: i32) -> int {
        first_match(self.rows, has_user_id(id))
    }

    pub open spec fn contains(self, id: i32) -> bool {
        self.index_of(id) >= 0
    }

    /// The row with id `id` (meaningful when `contains(id)`).
    pub open spec fn row(self, id: i32) -> UserView {
        self.rows[self.index_of(id)]
    }

    /// Position of the first row named `name`, or -1.
    pub open spec fn index_named(self, name: Seq<char>) -> int {
        first_match(self.rows, has_username(name))
    }

    pub open spec fn has_name(self, name: Seq<char>) -> bool {
        self.index_named(name) >= 0
    }

    /// The first row named `name` (meaningful when `has_name(name)`).
    pub open spec fn named(self, name: Seq<char>) -> UserView {
        self.rows[self.index_named(name)]
    }

    /// The row an insert adds: the sequence's next id.
    pub open spec fn new_row(self, username: Seq<char>, password_hash: Seq<char>, created: i64) -> UserView {
        UserView { id: self.next_id.unwrap(), username, password_hash, created }
    }

    /// The table after inserting `new_row(..)` (meaningful when the
    /// sequence is not exhausted).
    pub open spec fn insert(self, username: Seq<char>, password_hash: Seq<char>, created: i64) -> UserTableView {
        UserTableView {
            rows: self.rows.push(self.new_row(username, password_hash, created)),
            next_id: next_serial(self.next_id.unwrap()),
        }
    }

    /// `DELETE FROM users WHERE id = id`.
    pub open spec fn delete(self, id: i32) -> UserTableView {
        if self.contains(id) {
            UserTableView { rows: self.rows.remove(self.index_of(id)), next_id: self.next_id }
        } else {
            self
        }
    }
}

/// The ids of `rows`, in table order.
pub open spec fn user_ids(rows: Seq<UserView>) -> Seq<i32> {
    rows.map_values(|r: UserView| r.id)
}

/// `r` is what registering with `password` gives when the drawn salt is
/// `salt` and the sequence's next value is `next_id`: the hash is computed
/// first, and the row is inserted only if it succeeded; an exhausted
/// sequence is reported before a failed hash.
pub open spec fn created_under(
    password: Seq<char>,
    salt: Seq<char>,
    next_id: Option<i32>,
    r: Result<User, StoreError>,
) -> bool {
    if next_id is None {
        r == Err::<User, StoreError>(StoreError::SequenceExhausted)
    } else {
        match argon2_phc(password, salt) {
            None => r == Err::<User, StoreError>(StoreError::HashFailed),
            Some(h) => r matches Ok(u) && u@.password_hash == h,
        }
    }
}

/// `r` is what preparing the credentials `username`, `password` gives
/// when the drawn salt is `salt`: the username with the PHC string when
/// Argon2 hashes the password, `HashFailed` otherwise.
pub open spec fn credentials_under(
    username: Seq<char>,
    password: Seq<char>,
    salt: Seq<char>,
    r: Result<(String, String), StoreError>,
) -> bool {
    match argon2_phc(password, salt) {
        None => r == Err::<(String, String), StoreError>(StoreError::HashFailed),
        Some(h) => r matches Ok((n, s)) && n@ == username && s@ == h,
    }
}

impl UserTable {
    /// An empty table whose sequence starts at 1.
    pub fn new() -> (t: UserTable)
        ensures
            t@.rows == Seq::<UserView>::empty(),
            t@.next_id == Some(1i32),
            t@.wf(),
    {
        UserTable { rows: Vec::new(), next_id: Some(1) }
    }

    /// The table holding `rows`, with the sequence continuing after the
    /// largest id; `None` when two rows share an id. The sequence's own
    /// position is not among the rows: once the newest row has been deleted,
    /// a table rebuilt this way hands its id out again, which a database
    /// sequence never does. A rebuilt table is meant for reading.
    pub fn from_rows(rows: Vec<User>) -> (t: Option<UserTable>)
        ensures
            match t {
                Some(t) => t@.rows == user_views(rows@) && t@.next_id == next_after_ids(user_ids(user_views(rows@))) && t@.wf(),
                None => exists|a: int, b: int|
                    0 <= a < b < rows@.len() && #[trigger] rows@[a].id == #[trigger] rows@[b].id,
            },
    {
        let n = rows.len();
        let mut next: Option<i32> = Some(1);
        let mut i: usize = 0;
        while i < n
            invariant
                i <= n,
                n == rows@.len(),
                next == next_after_ids(user_ids(user_views(rows@)).take(i as int)),
                forall|a: int, b: int| 0 <= a < b < i ==> #[trigger] rows@[a].id != #[trigger] rows@[b].id,
            decreases n - i,
        {
            let id = rows[i].id;
            let mut j: usize = 0;
            while j < i
                invariant
                    j <= i,
                    i < n,
                    n == rows@.len(),
                    id == rows@[i as int].id,
                    forall|a: int| 0 <= a < j ==> (#[trigger] rows@[a]).id != id,
                decreases i - j,
            {
                if rows[j].id == id {
                    return None;
                }
                j = j + 1;
            }
            proof {
                assert(user_ids(user_views(rows@)).take(i + 1).drop_last() =~= user_ids(user_views(rows@)).take(i as int));
                assert(user_ids(user_views(rows@)).take(i + 1).last() == id);
            }
            next = match next {
                None => None,
                Some(m) => if id < m {
                    Some(m)
                } else {
                    advance_serial(id)
                },
            };
            i = i + 1;
        }
        proof {
            assert(user_ids(user_views(rows@)).take(n as int) =~= user_ids(user_views(rows@)));
            lemma_next_after_ids(user_ids(user_views(rows@)));
            if next is Some {
                assert forall|k: int| 0 <= k < rows@.len() implies #[trigger] user_views(rows@)[k].id < next.unwrap() by {
                    assert(user_ids(user_views(rows@))[k] == rows@[k].id);
                }
            }
        }
        Some(UserTable { rows, next_id: next })
    }

    /// The rows, in table order.
    pub fn rows(&self) -> (r: &Vec<User>)
        ensures
            user_views(r@) == self@.rows,
    {
        &self.rows
    }

    /// Position of the row with id `id`.
    fn find(&self, id: i32) -> (r: Option<usize>)
        ensures
            match r {
                Some(k) => k as int == self@.index_of(id) && k < self.rows@.len(),
                None => self@.index_of(id) == -1,
            },
    {
        let mut i: usize = 0;
        while i < self.rows.len()
            invariant
                i <= self.rows@.len(),
                forall|a: int| 0 <= a < i ==> (#[trigger] self.rows@[a]).id != id,
            decreases self.rows@.len() - i,
        {
            if self.rows[i].id == id {
                proof {
                    lemma_first_match_at(self@.rows, has_user_id(id), i as int);
                }
                return Some(i);
            }
            i = i + 1;
        }
        proof {
            lemma_first_match(self@.rows, has_user_id(id));
            assert forall|a: int| 0 <= a < self@.rows.len() implies !has_user_id(id)(#[trigger] self@.rows[a]) by {
                assert(self.rows@[a].id != id);
            }
        }
        None
    }

    /// Position of the first row named `name`.
    fn find_named(&self, name: &String) -> (r: Option<usize>)
        ensures
            match r {
                Some(k) => k as int == self@.index_named(name@) && k < self.rows@.len(),
                None => self@.index_named(name@) == -1,
            },
    {
        let mut i: usize = 0;
        while i < self.rows.len()
            invariant
                i <= self.rows@.len(),
                forall|a: int| 0 <= a < i ==> (#[trigger] self.rows@[a]).username@ != name@,
            decreases self.rows@.len() - i,
        {
            if self.rows[i].username == *name {
                proof {
                    lemma_first_match_at(self@.rows, has_username(name@), i as int);
                }
                return Some(i);
            }
            i = i + 1;
        }
        proof {
            lemma_first_match(self@.rows, has_username(name@));
            assert forall|a: int| 0 <= a < self@.rows.len() implies !has_username(name@)(
                #[trigger] self@.rows[a],
            ) by {
                assert(self.rows@[a].username@ != name@);
            }
        }
        None
    }
}

impl User {
    /// `INSERT INTO users (username, password_hash) ... RETURNING *` with an
    /// already computed hash: the new row, with the sequence's next id.
    /// Fails, changing nothing, once the sequence is exhausted.
    pub fn create_with_hash(username: String, password_hash: String, users: &mut UserTable, created: i64) -> (r:
        Result<User, StoreError>)
        requires
            old(users)@.wf(),
        ensures
            final(users)@.wf(),
            old(users)@.next_id is Some ==> (r matches Ok(u) && u@ == old(users)@.new_row(
                username@,
                password_hash@,
                created,
            )) && final(users)@ == old(users)@.insert(username@, password_hash@, created),
            old(users)@.next_id is None ==> r == Err::<User, StoreError>(StoreError::SequenceExhausted)
                && final(users)@ == old(users)@,
    {
        match users.next_id {
            None => Err(StoreError::SequenceExhausted),
            Some(id) => {
                let ghost old_rows = users.rows@;
                let row = User { id, username, password_hash, created };
                let result = row.copy();
                users.rows.push(row);
                users.next_id = advance_serial(id);
                proof {
                    assert(user_views(old_rows.push(row)) =~= user_views(old_rows).push(row@));
                }
                Ok(result)
            },
        }
    }

    /// First step of registering: hashes the password under a fresh random
    /// salt, keeping the username beside the hash. Succeeds for every
    /// password within Argon2's length limit.
    pub fn hash_credentials(user: UserRequest) -> (r: Result<(String, String), StoreError>)
        ensures
            exists|salt: Seq<char>|
                is_drawn_salt(salt) && #[trigger] credentials_under(user.username@, user.password@, salt, r),
            hashable_password(user.password@) ==> r is Ok,
            r matches Ok((n, h)) ==> {
                &&& n@ == user.username@
                &&& exists|salt: Seq<char>|
                    is_drawn_salt(salt) && #[trigger] argon2_phc(user.password@, salt) == Some(h@)
                        && is_default_phc(h@, salt)
                &&& phc_parses(h@)
                &&& argon2_accepts(user.password@, h@)
            },
    {
        let ghost password = user.password@;
        let hashed = hash_password(user.password);
        let ghost salt = choose|salt: Seq<char>| is_drawn_salt(salt) && hashed_under(password, salt, hashed);
        let r = match hashed {
            Ok(h) => Ok((user.username, h)),
            Err(_) => Err(StoreError::HashFailed),
        };
        proof {
            assert(credentials_under(user.username@, password, salt, r));
        }
        r
    }

    /// Registers an account: hashes the password under a fresh random salt,
    /// then inserts the row. Succeeds whenever the sequence has a value left
    /// and the password is within Argon2's length limit. Whatever salt was
    /// drawn, the stored hash is an Argon2 PHC string of the password under
    /// it that verifies the password. Fails, changing nothing, when the
    /// sequence is exhausted or hashing fails: the outcome is that of
    /// hashing the password under some drawn salt.
    pub fn create(user: UserRequest, users: &mut UserTable, created: i64) -> (r: Result<User, StoreError>)
        requires
            old(users)@.wf(),
        ensures
            final(users)@.wf(),
            old(users)@.next_id is Some && hashable_password(user.password@) ==> r is Ok,
            exists|salt: Seq<char>|
                is_drawn_salt(salt) && #[trigger] created_under(user.password@, salt, old(users)@.next_id, r),
            r == Err::<User, StoreError>(StoreError::HashFailed) ==> old(users)@.next_id is Some && exists|
                salt: Seq<char>,
            | is_drawn_salt(salt) && #[trigger] argon2_phc(user.password@, salt) is None,
            match r {
                Ok(u) => {
                    &&& old(users)@.next_id is Some
                    &&& u@.id == old(users)@.next_id.unwrap()
                    &&& u@.username == user.username@
                    &&& u@.created == created
                    &&& exists|salt: Seq<char>|
                        is_drawn_salt(salt) && #[trigger] argon2_phc(user.password@, salt) == Some(
                            u@.password_hash,
                        ) && is_default_phc(u@.password_hash, salt)
                    &&& phc_parses(u@.password_hash)
                    &&& argon2_accepts(user.password@, u@.password_hash)
                    &&& final(users)@ == old(users)@.insert(u@.username, u@.password_hash, created)
                },
                Err(e) => {
                    &&& final(users)@ == old(users)@
                    &&& (e == StoreError::SequenceExhausted || e == StoreError::HashFailed)
                    &&& (e == StoreError::SequenceExhausted <==> old(users)@.next_id is None)
                },
            },
    {
        let ghost username = user.username@;
        let ghost password = user.password@;
        let prepared = User::hash_credentials(user);
        let ghost salt = choose|salt: Seq<char>|
            is_drawn_salt(salt) && credentials_under(username, password, salt, prepared);
        let (name, hash) = match prepared {
            Ok(p) => p,
            Err(_) => {
                if users.next_id.is_none() {
                    let r = Err(StoreError::SequenceExhausted);
                    proof {
                        assert(created_under(password, salt, old(users)@.next_id, r));
                    }
                    return r;
                }
                let r = Err(StoreError::HashFailed);
                proof {
                    assert(created_under(password, salt, old(users)@.next_id, r));
                    assert(argon2_phc(password, salt) is None);
                }
                return r;
            },
        };
        let r = User::create_with_hash(name, hash, users, created);
        proof {
            assert(created_under(password, salt, old(users)@.next_id, r));
        }
        r
    }

    /// `SELECT * FROM users WHERE id = id`, which may find nothing.
    pub fn find_by_id(id: i32, users: &UserTable) -> (r: Option<User>)
        ensures
            users@.contains(id) ==> (r matches Some(u) && u@ == users@.row(id)),
            !users@.contains(id) ==> r is None,
    {
        match users.find(id) {
            Some(k) => Some(users.rows[k].copy()),
            None => None,
        }
    }

    /// `SELECT username FROM users WHERE id = id`, which fails when no row matches.
    pub fn get_username(id: UserID, users: &UserTable) -> (r: Result<UserName, StoreError>)
        ensures
            users@.contains(id.id) ==> (r matches Ok(n) && n.username@ == users@.row(id.id).username),
            !users@.contains(id.id) ==> r == Err::<UserName, StoreError>(StoreError::RowNotFound),
    {
        match users.find(id.id) {
            Some(k) => Ok(UserName { username: users.rows[k].username.clone() }),
            None => Err(StoreError::RowNotFound),
        }
    }

    /// `SELECT * FROM users WHERE username = username`: the first such row,
    /// if any.
    pub fn find_by_username(username: UserName, users: &UserTable) -> (r: Option<User>)
        ensures
            users@.has_name(username.username@) ==> (r matches Some(u) && u@ == users@.named(
                username.username@,
            )),
            !users@.has_name(username.username@) ==> r is None,
    {
        match users.find_named(&username.username) {
            Some(k) => Some(users.rows[k].copy()),
            None => None,
        }
    }

    /// `SELECT id FROM users WHERE username = username`: the id of the first
    /// such row; fails when there is none.
    pub fn get_id(username: String, users: &UserTable) -> (r: Result<i32, StoreError>)
        ensures
            users@.has_name(username@) ==> r == Ok::<i32, StoreError>(users@.named(username@).id),
            !users@.has_name(username@) ==> r == Err::<i32, StoreError>(StoreError::RowNotFound),
    {
        match users.find_named(&username) {
            Some(k) => Ok(users.rows[k].id),
            None => Err(StoreError::RowNotFound),
        }
    }

    /// `SELECT password_hash FROM users WHERE username = user.username`: the
    /// stored hash of the first such row; fails when there is none.
    pub fn get_password(user: UserRequest, users: &UserTable) -> (r: Result<String, StoreError>)
        ensures
            users@.has_name(user.username@) ==> (r matches Ok(h) && h@ == users@.named(
                user.username@,
            ).password_hash),
            !users@.has_name(user.username@) ==> r == Err::<String, StoreError>(StoreError::RowNotFound),
    {
        match users.find_named(&user.username) {
            Some(k) => Ok(users.rows[k].password_hash.clone()),
            None => Err(StoreError::RowNotFound),
        }
    }

    /// `DELETE FROM users WHERE id = id`: one row goes if it exists, none otherwise.
    pub fn delete(id: i32, users: &mut UserTable) -> (r: Result<QueryResult, StoreError>)
        requires
            old(users)@.wf(),
        ensures
            final(users)@.wf(),
            final(users)@ == old(users)@.delete(id),
            r == Ok::<QueryResult, StoreError>(
                QueryResult { rows_affected: if old(users)@.contains(id) { 1 } else { 0 } },
            ),
    {
        match users.find(id) {
            None => Ok(QueryResult { rows_affected: 0 }),
            Some(k) => {
                users.rows.remove(k);
                proof {
                    assert(users@.rows =~= old(users)@.delete(id).rows);
                }
                Ok(QueryResult { rows_affected: 1 })
            },
        }
    }
}

} // verus!
