use microblog::identity::parse_user_id;
use microblog::models::post::{Post, PostRequest, PostTable};
use microblog::models::user::{User, UserID, UserName, UserRequest, UserTable};
use microblog::routes::post::{create_post, create_reply, delete_post, get_post, get_replies, get_top_ten};
use microblog::routes::user::{get_username, login_user, logout_user, register_user, try_login_user};
use microblog::routes::{Payload, SessionChange, Status};

fn req(body: &str) -> PostRequest {
    PostRequest { body: body.to_string(), subject: "s".to_string() }
}

fn creds(name: &str, pw: &str) -> UserRequest {
    UserRequest { username: name.to_string(), password: pw.to_string() }
}

#[test]
fn status_codes() {
    let all = [
        (Status::Success, 200),
        (Status::Created, 201),
        (Status::Accepted, 202),
        (Status::NoContent, 204),
        (Status::BadRequest, 400),
        (Status::Unauthorized, 401),
        (Status::Forbidden, 403),
        (Status::NotFound, 404),
    ];
    for (s, c) in all {
        assert_eq!(s.code(), c);
    }
}

#[test]
fn posting_needs_a_session() {
    let mut posts = PostTable::new();
    let r = create_post(None, req("a"), &mut posts, 1);
    assert_eq!(r.status, Status::NotFound);
    assert!(posts.rows().is_empty());
    let r = create_post(Some("12".to_string()), req("a"), &mut posts, 1);
    assert_eq!(r.status, Status::Created);
    assert_eq!(r.payload, Payload::Empty);
    assert_eq!(r.session, SessionChange::Keep);
    assert_eq!(Post::get_post(1, &posts).unwrap().user_id, 12);
}

#[test]
fn replying_links_the_reply() {
    let mut posts = PostTable::new();
    create_post(Some("1".to_string()), req("parent"), &mut posts, 1);
    assert_eq!(create_reply(None, req("r"), 1, &mut posts, 2).status, Status::BadRequest);
    assert_eq!(create_reply(Some("2".to_string()), req("r"), 1, &mut posts, 2).status, Status::Created);
    // a reply to a missing post is stored, and no post lists it
    assert_eq!(create_reply(Some("2".to_string()), req("orphan"), 99, &mut posts, 3).status, Status::Created);
    let r = get_replies(1, &posts);
    assert_eq!(r.status, Status::Success);
    match r.payload {
        Payload::Posts(v) => {
            assert_eq!(v.len(), 1);
            assert_eq!(v[0].body, "r");
            assert_eq!(v[0].user_id, 2);
        }
        _ => panic!("expected posts"),
    }
    assert_eq!(get_replies(99, &posts).status, Status::NotFound);
    match get_top_ten(&posts).payload {
        Payload::Posts(v) => assert_eq!(v.iter().map(|p| p.id).collect::<Vec<_>>(), vec![1]),
        _ => panic!("expected posts"),
    }
}

#[test]
fn reading_posts() {
    let mut posts = PostTable::new();
    create_post(Some("1".to_string()), req("x"), &mut posts, 1);
    let r = get_post(1, &posts);
    assert_eq!(r.status, Status::Success);
    assert_eq!(r.payload, Payload::Post(Post::get_post(1, &posts).unwrap()));
    assert_eq!(get_post(2, &posts).status, Status::NotFound);
    assert_eq!(get_top_ten(&PostTable::new()).payload, Payload::Posts(vec![]));
}

#[test]
fn deleting_posts() {
    let mut posts = PostTable::new();
    create_post(Some("1".to_string()), req("x"), &mut posts, 1);
    assert_eq!(delete_post(Some("1".to_string()), 5, &mut posts).status, Status::NotFound);
    assert_eq!(delete_post(None, 1, &mut posts).status, Status::BadRequest);
    assert_eq!(posts.rows().len(), 1);
    // any signed-in caller may delete, not only the author
    assert_eq!(delete_post(Some("2".to_string()), 1, &mut posts).status, Status::NoContent);
    assert!(posts.rows().is_empty());
    assert_eq!(get_post(1, &posts).status, Status::NotFound);
}

#[test]
fn register_then_log_in() {
    let mut users = UserTable::new();
    let r = register_user(creds("ana", "pw1"), &mut users, 5);
    assert_eq!(r.status, Status::Created);
    assert_eq!(r.session, SessionChange::Remember("ana".to_string()));
    let r = login_user(creds("ana", "pw1"), &users);
    assert_eq!(r.status, Status::Accepted);
    assert_eq!(r.session, SessionChange::Remember("1".to_string()));
    match r.session {
        SessionChange::Remember(s) => assert_eq!(parse_user_id(&s), Some(1)),
        _ => panic!("expected a session"),
    }
    assert_eq!(login_user(creds("ana", "wrong"), &users).status, Status::Unauthorized);
    assert_eq!(login_user(creds("bob", "pw1"), &users).session, SessionChange::Keep);
    assert_eq!(login_user(creds("bob", "pw1"), &users).status, Status::NotFound);
}

#[test]
fn login_with_an_unreadable_hash_is_refused() {
    let users = UserTable::from_rows(vec![User {
        id: 3,
        username: "cy".to_string(),
        password_hash: "plain".to_string(),
        created: 0,
    }])
    .unwrap();
    assert_eq!(try_login_user(creds("cy", "plain"), &users), None);
    assert_eq!(try_login_user(creds("dee", "x"), &users).unwrap().status, Status::NotFound);
}

#[test]
fn session_endpoints() {
    assert_eq!(microblog::routes::user::test(Some("1".to_string())).status, Status::Success);
    assert_eq!(microblog::routes::user::test(None).status, Status::Forbidden);
    let r = logout_user(Some("1".to_string()));
    assert_eq!((r.status, r.session), (Status::Success, SessionChange::Forget));
    let r = logout_user(None);
    assert_eq!((r.status, r.session), (Status::NotFound, SessionChange::Keep));
}

#[test]
fn username_lookup() {
    let mut users = UserTable::new();
    User::create_with_hash("eve".to_string(), "h".to_string(), &mut users, 0).unwrap();
    let r = get_username(UserID { id: 1 }, &users);
    assert_eq!(r.status, Status::Success);
    assert_eq!(r.payload, Payload::UserName(UserName { username: "eve".to_string() }));
    assert_eq!(get_username(UserID { id: 2 }, &users).status, Status::NotFound);
}

#[test]
fn login_session_posts_as_the_account() {
    let mut users = UserTable::new();
    User::create_with_hash("x".to_string(), "h".to_string(), &mut users, 0).unwrap();
    register_user(creds("ana", "pw"), &mut users, 1);
    let session = match login_user(creds("ana", "pw"), &users).session {
        SessionChange::Remember(s) => s,
        _ => panic!("expected a session"),
    };
    assert_eq!(session, "2");
    let mut posts = PostTable::new();
    assert_eq!(create_post(Some(session), req("mine"), &mut posts, 9).status, Status::Created);
    assert_eq!(Post::get_post(1, &posts).unwrap().user_id, 2);
}
