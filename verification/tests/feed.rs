use minitweet::error::AppError;
use minitweet::store::{RegisterRequest, Store};

const SECRET: &str = "feed-test-secret";

fn register(s: &mut Store, username: &str, email: &str, password: &str) -> u128 {
    let req = RegisterRequest {
        username: username.to_string(),
        email: email.to_string(),
        password: password.to_string(),
    };
    s.register(&req, SECRET).expect("registration").user.id
}

fn two_users(s: &mut Store) -> (u128, u128) {
    let alice = register(s, "alice", "alice@example.com", "pw-alice");
    let bob = register(s, "bob", "bob@example.com", "pw-bob");
    (alice, bob)
}

#[test]
fn body_length_bounds_are_inclusive() {
    let mut s = Store::new();
    let (alice, _) = two_users(&mut s);
    assert_eq!(s.create(alice, "").map(|_| ()), Err(AppError::ValidationError));
    assert_eq!(
        s.create(alice, &"a".repeat(281)).map(|_| ()),
        Err(AppError::ValidationError)
    );
    assert!(s.create(alice, "x").is_ok());
    assert!(s.create(alice, &"a".repeat(280)).is_ok());
}

#[test]
fn body_length_counts_characters_not_bytes() {
    let mut s = Store::new();
    let (alice, _) = two_users(&mut s);
    // 280 two-byte characters are still 280 characters.
    assert!(s.create(alice, &"\u{e9}".repeat(280)).is_ok());
    assert_eq!(
        s.create(alice, &"\u{e9}".repeat(281)).map(|_| ()),
        Err(AppError::ValidationError)
    );
}

#[test]
fn create_for_unknown_author_is_not_found() {
    let mut s = Store::new();
    assert_eq!(s.create(12345, "hi").map(|_| ()), Err(AppError::NotFound));
}

#[test]
fn fresh_item_has_no_likes_and_its_hashtags() {
    let mut s = Store::new();
    let (alice, _) = two_users(&mut s);
    let item = s.create(alice, "shipping #Rust today").expect("creation");
    assert_eq!(item.user_id, alice);
    assert_eq!(item.content, "shipping #Rust today");
    assert_eq!(item.like_count, 0);
    assert!(!item.is_liked);
    assert_eq!(item.hashtags, vec!["rust".to_string()]);
}

#[test]
fn second_like_conflicts_and_count_stays() {
    let mut s = Store::new();
    let (alice, bob) = two_users(&mut s);
    let item = s.create(alice, "like me").expect("creation");
    s.like(bob, item.id).expect("first like");
    let counts = s.like_counts(&vec![item.id]);
    assert_eq!(counts, vec![(item.id, 1)]);
    assert_eq!(s.like(bob, item.id).map(|_| ()), Err(AppError::Conflict));
    // The rejected call changed nothing.
    assert_eq!(s.like_counts(&vec![item.id]), vec![(item.id, 1)]);
}

#[test]
fn like_of_missing_item_or_user_is_not_found() {
    let mut s = Store::new();
    let (alice, _) = two_users(&mut s);
    let item = s.create(alice, "body").expect("creation");
    assert_eq!(s.like(alice, 999_999).map(|_| ()), Err(AppError::NotFound));
    assert_eq!(s.like(424_242, item.id).map(|_| ()), Err(AppError::NotFound));
}

#[test]
fn unlike_undoes_a_like_and_only_a_like() {
    let mut s = Store::new();
    let (alice, bob) = two_users(&mut s);
    let item = s.create(alice, "body").expect("creation");
    assert_eq!(s.unlike(bob, item.id), Err(AppError::NotFound));
    s.like(bob, item.id).expect("like");
    assert_eq!(s.unlike(bob, item.id), Ok(()));
    assert_eq!(s.unlike(bob, item.id), Err(AppError::NotFound));
    // Zero likes again: absent from the counts.
    assert_eq!(s.like_counts(&vec![item.id]), Vec::<(u128, u64)>::new());
}

#[test]
fn self_follow_is_a_validation_error() {
    let mut s = Store::new();
    let (alice, _) = two_users(&mut s);
    assert_eq!(s.follow(alice, alice).map(|_| ()), Err(AppError::ValidationError));
}

#[test]
fn second_follow_conflicts() {
    let mut s = Store::new();
    let (alice, bob) = two_users(&mut s);
    s.follow(bob, alice).expect("first follow");
    assert_eq!(s.follow(bob, alice).map(|_| ()), Err(AppError::Conflict));
}

#[test]
fn unfollow_without_edge_is_not_found() {
    let mut s = Store::new();
    let (alice, bob) = two_users(&mut s);
    assert_eq!(s.unfollow(bob, alice), Err(AppError::NotFound));
    s.follow(bob, alice).expect("follow");
    assert_eq!(s.unfollow(bob, alice), Ok(()));
    assert_eq!(s.unfollow(bob, alice), Err(AppError::NotFound));
}

#[test]
fn follow_of_unknown_user_is_not_found() {
    let mut s = Store::new();
    let (alice, _) = two_users(&mut s);
    assert_eq!(s.follow(alice, 31_337).map(|_| ()), Err(AppError::NotFound));
}

#[test]
fn delete_is_for_the_author_alone() {
    let mut s = Store::new();
    let (alice, bob) = two_users(&mut s);
    let item = s.create(alice, "mine").expect("creation");
    assert_eq!(s.delete(bob, item.id), Err(AppError::Forbidden));
    assert_eq!(s.delete(alice, 777), Err(AppError::NotFound));
    assert_eq!(s.delete(alice, item.id), Ok(()));
    assert!(s.item(item.id, None).is_none());
}

#[test]
fn delete_cascades_to_likes() {
    let mut s = Store::new();
    let (alice, bob) = two_users(&mut s);
    let item = s.create(alice, "short-lived").expect("creation");
    s.like(bob, item.id).expect("like");
    s.delete(alice, item.id).expect("delete");
    // No orphaned like stays reachable.
    assert_eq!(s.like_counts(&vec![item.id]), Vec::<(u128, u64)>::new());
    assert_eq!(s.unlike(bob, item.id), Err(AppError::NotFound));
}

#[test]
fn single_item_enrichment_tracks_the_viewer() {
    let mut s = Store::new();
    let (alice, bob) = two_users(&mut s);
    let created = s.create(alice, "look #here").expect("creation");
    s.like(bob, created.id).expect("like");
    let for_bob = s.item(created.id, Some(bob)).expect("item exists");
    assert_eq!(for_bob.like_count, 1);
    assert!(for_bob.is_liked);
    let for_alice = s.item(created.id, Some(alice)).expect("item exists");
    assert!(!for_alice.is_liked);
    let anonymous = s.item(created.id, None).expect("item exists");
    assert_eq!(anonymous.like_count, 1);
    assert!(!anonymous.is_liked);
    assert_eq!(anonymous.hashtags, vec!["here".to_string()]);
}
