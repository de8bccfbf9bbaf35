use microblog::models::post::{Post, PostRequest, PostTable};
use microblog::models::{QueryResult, StoreError};

fn req(body: &str, subject: &str) -> PostRequest {
    PostRequest { body: body.to_string(), subject: subject.to_string() }
}

fn row(id: i32, created: i64, reply: bool) -> Post {
    Post {
        id,
        user_id: 1,
        body: format!("body {}", id),
        subject: format!("subject {}", id),
        created,
        reply_id: vec![],
        reply,
    }
}

#[test]
fn created_post_reads_back() {
    let mut posts = PostTable::new();
    assert_eq!(Post::create_post(7, req("hello", "greeting"), &mut posts, 100), Ok(QueryResult { rows_affected: 1 }));
    assert_eq!(Post::create_post(8, req("again", "more"), &mut posts, 200), Ok(QueryResult { rows_affected: 1 }));
    let p = Post::get_post(1, &posts).unwrap();
    assert_eq!(p.id, 1);
    assert_eq!(p.user_id, 7);
    assert_eq!(p.body, "hello");
    assert_eq!(p.subject, "greeting");
    assert_eq!(p.created, 100);
    assert!(p.reply_id.is_empty());
    assert!(!p.reply);
    assert_eq!(Post::get_post(2, &posts).unwrap().user_id, 8);
    assert_eq!(Post::get_user_id(2, &posts), Ok(8));
}

#[test]
fn missing_post_is_not_found() {
    let posts = PostTable::new();
    assert_eq!(Post::get_post(3, &posts), Err(StoreError::RowNotFound));
    assert_eq!(Post::get_user_id(3, &posts), Err(StoreError::RowNotFound));
    assert_eq!(Post::get_replies(3, &posts), Err(StoreError::RowNotFound));
}

#[test]
fn reply_is_listed_after_link() {
    let mut posts = PostTable::new();
    Post::create_post(1, req("parent", "p"), &mut posts, 10).unwrap();
    let r1 = Post::create_reply(2, req("first", "r"), &mut posts, 20).unwrap();
    let r2 = Post::create_reply(3, req("second", "r"), &mut posts, 30).unwrap();
    assert_eq!((r1, r2), (2, 3));
    assert_eq!(Post::get_replies(1, &posts).unwrap(), vec![]);
    assert_eq!(Post::link_reply(1, r2, &mut posts), Ok(QueryResult { rows_affected: 1 }));
    assert_eq!(Post::link_reply(1, r1, &mut posts), Ok(QueryResult { rows_affected: 1 }));
    let replies = Post::get_replies(1, &posts).unwrap();
    let bodies: Vec<&str> = replies.iter().map(|p| p.body.as_str()).collect();
    assert_eq!(bodies, vec!["second", "first"]);
    assert!(replies.iter().all(|p| p.reply));
    assert_eq!(Post::get_post(1, &posts).unwrap().reply_id, vec![3, 2]);
}

#[test]
fn linking_to_a_missing_parent_changes_nothing() {
    let mut posts = PostTable::new();
    Post::create_post(1, req("a", "b"), &mut posts, 10).unwrap();
    assert_eq!(Post::link_reply(9, 1, &mut posts), Ok(QueryResult { rows_affected: 0 }));
    assert_eq!(Post::get_post(1, &posts).unwrap().reply_id, vec![]);
}

#[test]
fn replies_fail_when_a_listed_reply_is_missing() {
    let mut posts = PostTable::new();
    Post::create_post(1, req("parent", "p"), &mut posts, 10).unwrap();
    Post::link_reply(1, 42, &mut posts).unwrap();
    assert_eq!(Post::get_replies(1, &posts), Err(StoreError::RowNotFound));
}

#[test]
fn deleted_post_is_gone() {
    let mut posts = PostTable::new();
    Post::create_post(1, req("a", "a"), &mut posts, 10).unwrap();
    Post::create_post(1, req("b", "b"), &mut posts, 20).unwrap();
    assert_eq!(Post::delete_post(1, &mut posts), Ok(QueryResult { rows_affected: 1 }));
    assert_eq!(Post::delete_post(1, &mut posts), Ok(QueryResult { rows_affected: 0 }));
    assert_eq!(Post::get_post(1, &posts), Err(StoreError::RowNotFound));
    assert_eq!(Post::get_post(2, &posts).unwrap().body, "b");
    // ids are not reused
    Post::create_post(1, req("c", "c"), &mut posts, 30).unwrap();
    assert_eq!(Post::get_post(3, &posts).unwrap().body, "c");
}

#[test]
fn front_page_shows_ten_newest_top_level_posts() {
    let mut rows = Vec::new();
    for i in 1..=15 {
        // creation times out of id order, with one tie
        let created = ((i * 7) % 15) as i64;
        rows.push(row(i, created, false));
    }
    rows.push(row(16, 1000, true));
    rows.push(row(17, 14, false));
    let posts = PostTable::from_rows(rows).unwrap();
    let top = Post::get_top_ten(&posts);
    assert_eq!(top.len(), 10);
    assert!(top.iter().all(|p| !p.reply));
    for w in top.windows(2) {
        assert!(w[0].created >= w[1].created);
    }
    let created: Vec<i64> = top.iter().map(|p| p.created).collect();
    assert_eq!(created, vec![14, 14, 13, 12, 11, 10, 9, 8, 7, 6]);
}

#[test]
fn front_page_of_a_small_table_shows_all_top_level_posts() {
    let posts = PostTable::from_rows(vec![row(1, 5, false), row(2, 9, true), row(3, 7, false)]).unwrap();
    let ids: Vec<i32> = Post::get_top_ten(&posts).iter().map(|p| p.id).collect();
    assert_eq!(ids, vec![3, 1]);
    assert!(Post::get_top_ten(&PostTable::new()).is_empty());
}

#[test]
fn duplicate_ids_are_refused() {
    assert!(PostTable::from_rows(vec![row(1, 1, false), row(1, 2, false)]).is_none());
}

#[test]
fn sequence_continues_after_the_largest_id() {
    let mut posts = PostTable::from_rows(vec![row(4, 1, false), row(9, 2, false)]).unwrap();
    assert_eq!(Post::create_reply(1, req("r", "r"), &mut posts, 3), Ok(10));
    assert_eq!(posts.rows().len(), 3);
}

#[test]
fn exhausted_sequence_refuses_inserts() {
    let mut posts = PostTable::from_rows(vec![row(i32::MAX, 1, false)]).unwrap();
    assert_eq!(Post::create_post(1, req("a", "b"), &mut posts, 2), Err(StoreError::SequenceExhausted));
    assert_eq!(Post::create_reply(1, req("a", "b"), &mut posts, 2), Err(StoreError::SequenceExhausted));
    assert_eq!(posts.rows().len(), 1);
    let mut posts = PostTable::from_rows(vec![row(i32::MAX - 1, 1, false)]).unwrap();
    assert_eq!(Post::create_reply(1, req("a", "b"), &mut posts, 2), Ok(i32::MAX));
    assert_eq!(Post::create_reply(1, req("a", "b"), &mut posts, 2), Err(StoreError::SequenceExhausted));
}
