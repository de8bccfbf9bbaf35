use microblog::models::tweet::{Tweet, TweetRequest, TweetTable};
use microblog::models::{QueryResult, StoreError};

fn tweet(id: i64, parent_id: Option<i64>, created: i64, user_id: i32) -> Tweet {
    Tweet { id, body: format!("tweet {}", id), parent_id, created, user_id }
}

fn table() -> TweetTable {
    TweetTable::from_rows(vec![
        tweet(1, None, 50, 1),
        tweet(2, Some(1), 70, 2),
        tweet(3, None, 10, 2),
        tweet(4, Some(1), 60, 1),
        tweet(5, Some(3), 40, 1),
    ])
    .unwrap()
}

fn ids(v: &[Tweet]) -> Vec<i64> {
    v.iter().map(|t| t.id).collect()
}

#[test]
fn listings_come_oldest_first() {
    let t = table();
    assert_eq!(ids(&Tweet::find_all(&t)), vec![3, 5, 1, 4, 2]);
    assert_eq!(ids(&Tweet::find_by_user(1, &t)), vec![5, 1, 4]);
    assert_eq!(ids(&Tweet::find_by_user(9, &t)), Vec::<i64>::new());
    assert_eq!(ids(&Tweet::parents(&t)), vec![3, 1]);
    assert_eq!(ids(&Tweet::get_children(1, &t)), vec![4, 2]);
    assert_eq!(ids(&Tweet::get_children(2, &t)), Vec::<i64>::new());
}

#[test]
fn every_tweet_is_a_root_or_a_child_of_its_parent() {
    let t = table();
    let roots = Tweet::parents(&t);
    for tw in Tweet::find_all(&t) {
        match tw.parent_id {
            None => assert!(roots.contains(&tw)),
            Some(p) => {
                assert!(Tweet::get_children(p, &t).contains(&tw));
                assert!(!roots.contains(&tw));
            }
        }
    }
}

#[test]
fn tweet_lookups_by_id() {
    let t = table();
    assert_eq!(Tweet::find_by_id(4, &t).unwrap(), tweet(4, Some(1), 60, 1));
    assert_eq!(Tweet::get_parent(1, &t).unwrap().body, "tweet 1");
    assert_eq!(Tweet::find_by_id(9, &t), Err(StoreError::RowNotFound));
    assert_eq!(Tweet::get_parent(9, &t), Err(StoreError::RowNotFound));
}

#[test]
fn deleted_tweet_is_gone() {
    let mut t = table();
    assert_eq!(Tweet::delete(1, &mut t), Ok(QueryResult { rows_affected: 1 }));
    assert_eq!(Tweet::delete(1, &mut t), Ok(QueryResult { rows_affected: 0 }));
    assert_eq!(Tweet::find_by_id(1, &t), Err(StoreError::RowNotFound));
    assert_eq!(ids(&Tweet::find_all(&t)), vec![3, 5, 4, 2]);
    assert_eq!(ids(&Tweet::parents(&t)), vec![3]);
}

#[test]
fn equal_creation_times_keep_table_order() {
    let t = TweetTable::from_rows(vec![tweet(8, None, 5, 1), tweet(2, None, 5, 1), tweet(5, None, 1, 1)]).unwrap();
    assert_eq!(ids(&Tweet::find_all(&t)), vec![5, 8, 2]);
    assert!(TweetTable::from_rows(vec![tweet(1, None, 1, 1), tweet(1, None, 2, 1)]).is_none());
    assert!(Tweet::find_all(&TweetTable::new()).is_empty());
}

#[test]
fn tweet_request_carries_its_fields() {
    let r = TweetRequest { body: "hi".to_string(), parent_id: Some(3), user_id: 4 };
    assert_eq!(r.clone(), r);
    assert_eq!(r.parent_id, Some(3));
}

#[test]
fn user_listing_is_the_full_listing_filtered() {
    let t = table();
    let all = Tweet::find_all(&t);
    for u in [1, 2, 3] {
        let filtered: Vec<Tweet> = all.iter().filter(|tw| tw.user_id == u).cloned().collect();
        assert_eq!(Tweet::find_by_user(u, &t), filtered);
    }
}
