use microblog::models::password::verify_password;
use microblog::models::user::{User, UserID, UserName, UserRequest, UserTable};
use microblog::models::{QueryResult, StoreError};

fn user(id: i32, name: &str, hash: &str) -> User {
    User { id, username: name.to_string(), password_hash: hash.to_string(), created: id as i64 }
}

#[test]
fn created_user_stores_a_verifying_hash() {
    let mut users = UserTable::new();
    let u = User::create(UserRequest { username: "ana".to_string(), password: "secret".to_string() }, &mut users, 77)
        .unwrap();
    assert_eq!(u.id, 1);
    assert_eq!(u.username, "ana");
    assert_eq!(u.created, 77);
    assert_ne!(u.password_hash, "secret");
    assert!(verify_password(&"secret".to_string(), u.password_hash.clone()));
    assert_eq!(User::find_by_id(1, &users), Some(u.clone()));
    assert_eq!(
        User::get_password(UserRequest { username: "ana".to_string(), password: String::new() }, &users),
        Ok(u.password_hash.clone())
    );
}

#[test]
fn lookups_by_name_take_the_first_match() {
    let users = UserTable::from_rows(vec![user(5, "bo", "h5"), user(2, "cy", "h2"), user(9, "bo", "h9")]).unwrap();
    assert_eq!(User::get_id("bo".to_string(), &users), Ok(5));
    assert_eq!(User::get_id("dee".to_string(), &users), Err(StoreError::RowNotFound));
    assert_eq!(User::find_by_username(UserName { username: "bo".to_string() }, &users).unwrap().id, 5);
    assert_eq!(User::find_by_username(UserName { username: "zz".to_string() }, &users), None);
    assert_eq!(
        User::get_password(UserRequest { username: "cy".to_string(), password: "x".to_string() }, &users),
        Ok("h2".to_string())
    );
    assert_eq!(
        User::get_password(UserRequest { username: "zz".to_string(), password: "x".to_string() }, &users),
        Err(StoreError::RowNotFound)
    );
}

#[test]
fn user_lookups_by_id() {
    let users = UserTable::from_rows(vec![user(5, "bo", "h5"), user(2, "cy", "h2")]).unwrap();
    assert_eq!(User::get_username(UserID { id: 2 }, &users).unwrap(), UserName { username: "cy".to_string() });
    assert_eq!(User::get_username(UserID { id: 3 }, &users), Err(StoreError::RowNotFound));
    assert_eq!(User::find_by_id(3, &users), None);
}

#[test]
fn deleted_user_is_gone() {
    let mut users = UserTable::from_rows(vec![user(5, "bo", "h5"), user(2, "cy", "h2")]).unwrap();
    assert_eq!(User::delete(5, &mut users), Ok(QueryResult { rows_affected: 1 }));
    assert_eq!(User::delete(5, &mut users), Ok(QueryResult { rows_affected: 0 }));
    assert_eq!(User::find_by_id(5, &users), None);
    assert_eq!(User::find_by_id(2, &users).unwrap().username, "cy");
}

#[test]
fn create_with_hash_uses_the_next_id() {
    let mut users = UserTable::from_rows(vec![user(5, "bo", "h5")]).unwrap();
    let u = User::create_with_hash("eve".to_string(), "h".to_string(), &mut users, 3).unwrap();
    assert_eq!(u, user(6, "eve", "h").clone_with_created(3));
    assert!(UserTable::from_rows(vec![user(1, "a", "x"), user(1, "b", "y")]).is_none());
    let mut full = UserTable::from_rows(vec![user(i32::MAX, "z", "h")]).unwrap();
    assert_eq!(User::create_with_hash("a".to_string(), "h".to_string(), &mut full, 1), Err(StoreError::SequenceExhausted));
    assert_eq!(
        User::create(UserRequest { username: "a".to_string(), password: "p".to_string() }, &mut full, 1),
        Err(StoreError::SequenceExhausted)
    );
}

trait WithCreated {
    fn clone_with_created(&self, created: i64) -> User;
}

impl WithCreated for User {
    fn clone_with_created(&self, created: i64) -> User {
        User { created, ..self.clone() }
    }
}

#[test]
fn failed_registration_changes_nothing() {
    let mut users = UserTable::from_rows(vec![user(i32::MAX, "z", "h")]).unwrap();
    let before: Vec<User> = users.rows().clone();
    assert_eq!(
        User::create(UserRequest { username: "q".to_string(), password: "p".to_string() }, &mut users, 1),
        Err(StoreError::SequenceExhausted)
    );
    assert_eq!(users.rows(), &before);
}

#[test]
fn credentials_are_hashed_before_insert() {
    let (name, hash) = User::hash_credentials(UserRequest { username: "kim".to_string(), password: "pw".to_string() }).unwrap();
    assert_eq!(name, "kim");
    assert!(hash.starts_with("$argon2id$v=19$m=19456,t=2,p=1$"));
    assert!(verify_password(&"pw".to_string(), hash));
}
