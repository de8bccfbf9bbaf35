//! The account endpoints: registering, signing in and out, checking the
//! session, and looking up a username.

use vstd::prelude::*;

use super::post::identity_view;
use super::{bare, respond, Next, Payload, PayloadView, Response, ResponseView, SessionChange, SessionView, Status};
use crate::identity::{format_i32, format_user_id};
use crate::models::password::{
    argon2_accepts, argon2_phc, hashable_password, is_drawn_salt, is_well_formed_hash, phc_parses, verify_password,
};
use crate::models::user::{created_under, User, UserID, UserName, UserRequest, UserTable, UserTableView};
use crate::models::StoreError;

verus! {

/// Last step of `POST /register`: a created account signs the caller in
/// under its username (201); a failed insert answers 400.
pub fn finish_register(created: Result<User, StoreError>) -> (r: Response)
    ensures
        created matches Ok(u) ==> r@ == (ResponseView {
            status: Status::Created,
            payload: PayloadView::Empty,
            session: SessionView::Remember(u.username@),
        }),
        created is Err ==> r@ == bare(Status::BadRequest),
{
    match created {
        Ok(u) => Response { status: Status::Created, payload: Payload::Empty, session: SessionChange::Remember(u.username) },
        Err(_) => respond(Status::BadRequest),
    }
}

/// The status `POST /register` answers with when the drawn salt is `salt`
/// and the sequence's next value is `next_id`: 201 when the sequence has a
/// value left and the password hashes under the salt, 400 otherwise.
pub open spec fn registered_under(password: Seq<char>, salt: Seq<char>, next_id: Option<i32>) -> Status {
    if next_id is None || argon2_phc(password, salt) is None {
        Status::BadRequest
    } else {
        Status::Created
    }
}

/// Handles `POST /register`: creates the account and signs the caller in
/// under the username (201), or answers 400 and changes nothing when the
/// account cannot be created (the id sequence is exhausted, or hashing
/// failed, which it does not for a password within Argon2's length limit).
/// The stored hash is an Argon2 hash of the password, under some random
/// salt, that verifies the password.
pub fn register_user(user: UserRequest, users: &mut UserTable, created: i64) -> (r: Response)
    requires
        old(users)@.wf(),
    ensures
        final(users)@.wf(),
        r.status == Status::Created || r.status == Status::BadRequest,
        r.status == Status::Created ==> {
            &&& r@ == (ResponseView {
                status: Status::Created,
                payload: PayloadView::Empty,
                session: SessionView::Remember(user.username@),
            })
            &&& old(users)@.next_id is Some
            &&& exists|h: Seq<char>|
                {
                    &&& #[trigger] phc_parses(h)
                    &&& argon2_accepts(user.password@, h)
                    &&& exists|salt: Seq<char>|
                        salt.len() == 22 && #[trigger] argon2_phc(user.password@, salt) == Some(h)
                    &&& final(users)@ == old(users)@.insert(user.username@, h, created)
                }
        },
        r.status == Status::BadRequest ==> r@ == bare(Status::BadRequest) && final(users)@ == old(users)@,
        old(users)@.next_id is None ==> r.status == Status::BadRequest,
        old(users)@.next_id is Some && hashable_password(user.password@) ==> r.status == Status::Created,
        exists|salt: Seq<char>|
            is_drawn_salt(salt) && r.status == #[trigger] registered_under(
                user.password@,
                salt,
                old(users)@.next_id,
            ),
        r.status == Status::BadRequest ==> (old(users)@.next_id is None || exists|salt: Seq<char>|
            is_drawn_salt(salt) && #[trigger] argon2_phc(user.password@, salt) is None),
{
    let ghost password = user.password@;
    let result = User::create(user, users, created);
    let ghost salt = choose|salt: Seq<char>|
        is_drawn_salt(salt) && created_under(password, salt, old(users)@.next_id, result);
    proof {
        if result is Ok {
            assert(phc_parses(result.unwrap()@.password_hash));
        }
    }
    let r = finish_register(result);
    proof {
        assert(r.status == registered_under(password, salt, old(users)@.next_id));
    }
    r
}

/// `POST /login`: 404 when no account has the username; otherwise the
/// first such account is checked: the right password signs the caller in
/// under the account's id, written in decimal (202), a wrong one answers 401.
pub open spec fn login_outcome(users: UserTableView, username: Seq<char>, password: Seq<char>) -> ResponseView {
    if !users.has_name(username) {
        bare(Status::NotFound)
    } else if argon2_accepts(password, users.named(username).password_hash) {
        ResponseView {
            status: Status::Accepted,
            payload: PayloadView::Empty,
            session: SessionView::Remember(format_i32(users.named(username).id)),
        }
    } else {
        bare(Status::Unauthorized)
    }
}

/// The stored hash of the account that a login with `username` checks
/// parses as a PHC string. (The handler stops the process otherwise.)
pub open spec fn login_hash_readable(users: UserTableView, username: Seq<char>) -> bool {
    users.has_name(username) ==> phc_parses(users.named(username).password_hash)
}

/// First step of `POST /login`, once the account's id has been looked up
/// by username: 404 when there is no such account; otherwise its stored
/// hash is fetched.
pub fn begin_login(user_id: Result<i32, StoreError>) -> (r: Next)
    ensures
        user_id matches Ok(id) ==> r == Next::Continue(id),
        user_id is Err ==> (r matches Next::Respond(resp) && resp@ == bare(Status::NotFound)),
{
    match user_id {
        Ok(id) => Next::Continue(id),
        Err(_) => Next::Respond(respond(Status::NotFound)),
    }
}

/// The answer to a login for account `user_id` with `password`, given the
/// stored hash as fetched: 404 when it could not be fetched, 202 and a
/// session under the id (in decimal) when the password verifies, 401 when
/// it does not.
pub open spec fn finish_login_outcome(
    user_id: i32,
    password_hash: Result<Seq<char>, StoreError>,
    password: Seq<char>,
) -> ResponseView {
    match password_hash {
        Err(_) => bare(Status::NotFound),
        Ok(h) => if argon2_accepts(password, h) {
            ResponseView {
                status: Status::Accepted,
                payload: PayloadView::Empty,
                session: SessionView::Remember(format_i32(user_id)),
            }
        } else {
            bare(Status::Unauthorized)
        },
    }
}

/// The stored hash as fetched, as text.
pub open spec fn hash_view(password_hash: Result<String, StoreError>) -> Result<Seq<char>, StoreError> {
    match password_hash {
        Ok(h) => Ok(h@),
        Err(e) => Err(e),
    }
}

/// Last step of `POST /login`. A fetched hash must parse.
pub fn finish_login(user_id: i32, password_hash: Result<String, StoreError>, password: &String) -> (r: Response)
    requires
        password_hash matches Ok(h) ==> phc_parses(h@),
    ensures
        r@ == finish_login_outcome(user_id, hash_view(password_hash), password@),
{
    match password_hash {
        Ok(h) => {
            if verify_password(password, h) {
                Response {
                    status: Status::Accepted,
                    payload: Payload::Empty,
                    session: SessionChange::Remember(format_user_id(user_id)),
                }
            } else {
                respond(Status::Unauthorized)
            }
        },
        Err(_) => respond(Status::NotFound),
    }
}

/// Last step of `POST /login` for any fetched hash: `None` when the hash
/// does not parse, the answer otherwise.
pub fn try_finish_login(user_id: i32, password_hash: Result<String, StoreError>, password: &String) -> (r: Option<
    Response,
>)
    ensures
        (password_hash matches Ok(h) ==> phc_parses(h@)) ==> (r matches Some(resp) && resp@
            == finish_login_outcome(user_id, hash_view(password_hash), password@)),
        (password_hash matches Ok(h) && !phc_parses(h@)) ==> r is None,
{
    match password_hash {
        Ok(h) => if is_well_formed_hash(&h) {
            Some(finish_login(user_id, Ok(h), password))
        } else {
            None
        },
        Err(e) => Some(finish_login(user_id, Err(e), password)),
    }
}

/// Handles `POST /login`.
pub fn login_user(user: UserRequest, users: &UserTable) -> (r: Response)
    requires
        login_hash_readable(users@, user.username@),
    ensures
        r@ == login_outcome(users@, user.username@, user.password@),
{
    let username = user.username.clone();
    let password = user.password.clone();
    match begin_login(User::get_id(username, users)) {
        Next::Respond(r) => r,
        Next::Continue(user_id) => finish_login(user_id, User::get_password(user, users), &password),
    }
}

/// `POST /login` for any table: `None` when the account that the login
/// would check holds a hash that does not parse, the answer otherwise.
pub fn try_login_user(user: UserRequest, users: &UserTable) -> (r: Option<Response>)
    ensures
        login_hash_readable(users@, user.username@) ==> (r matches Some(resp) && resp@ == login_outcome(
            users@,
            user.username@,
            user.password@,
        )),
        !login_hash_readable(users@, user.username@) ==> r is None,
{
    match User::get_password(UserRequest { username: user.username.clone(), password: String::new() }, users) {
        Ok(h) => if is_well_formed_hash(&h) {
            Some(login_user(user, users))
        } else {
            None
        },
        Err(_) => Some(login_user(user, users)),
    }
}

/// Handles `POST /test`: 200 for a signed-in caller, 403 otherwise.
pub fn test(identity: Option<String>) -> (r: Response)
    ensures
        r@ == bare(if identity is Some { Status::Success } else { Status::Forbidden }),
{
    match identity {
        Some(_) => respond(Status::Success),
        None => respond(Status::Forbidden),
    }
}

/// Handles `POST /logout`: signs a signed-in caller out (200); 404 without
/// a session.
pub fn logout_user(identity: Option<String>) -> (r: Response)
    ensures
        identity is Some ==> r@ == (ResponseView {
            status: Status::Success,
            payload: PayloadView::Empty,
            session: SessionView::Forget,
        }),
        identity is None ==> r@ == bare(Status::NotFound),
{
    match identity {
        Some(_) => Response { status: Status::Success, payload: Payload::Empty, session: SessionChange::Forget },
        None => respond(Status::NotFound),
    }
}

/// `POST /get_username`: 200 with the account's username, or 404.
pub open spec fn get_username_outcome(user_id: i32, users: UserTableView) -> ResponseView {
    if users.contains(user_id) {
        ResponseView {
            status: Status::Success,
            payload: PayloadView::UserName(users.row(user_id).username),
            session: SessionView::Keep,
        }
    } else {
        bare(Status::NotFound)
    }
}

/// Answers `POST /get_username` from the lookup's result: 200 with the
/// username, or 404.
pub fn username_response(found: Result<UserName, StoreError>) -> (r: Response)
    ensures
        found matches Ok(n) ==> r@ == (ResponseView {
            status: Status::Success,
            payload: PayloadView::UserName(n.username@),
            session: SessionView::Keep,
        }),
        found is Err ==> r@ == bare(Status::NotFound),
{
    match found {
        Ok(name) => Response { status: Status::Success, payload: Payload::UserName(name), session: SessionChange::Keep },
        Err(_) => respond(Status::NotFound),
    }
}

/// Handles `POST /get_username`.
pub fn get_username(user_id: UserID, users: &UserTable) -> (r: Response)
    ensures
        r@ == get_username_outcome(user_id.id, users@),
{
    username_response(User::get_username(user_id, users))
}

} // verus!
