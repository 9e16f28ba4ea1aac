use minitweet::error::AppError;
use minitweet::store::{RegisterRequest, Store};

const SECRET: &str = "timeline-test-secret";

fn register(s: &mut Store, name: &str) -> u128 {
    let req = RegisterRequest {
        username: name.to_string(),
        email: format!("{}@example.com", name),
        password: "password".to_string(),
    };
    s.register(&req, SECRET).expect("registration").user.id
}

#[test]
fn timeline_of_unknown_user_is_not_found() {
    let s = Store::new();
    assert_eq!(s.timeline(1).map(|_| ()), Err(AppError::NotFound));
}

#[test]
fn empty_timeline_is_ok_and_empty() {
    let mut s = Store::new();
    let alice = register(&mut s, "alice");
    let items = s.timeline(alice).expect("timeline");
    assert!(items.is_empty());
}

#[test]
fn timeline_holds_own_and_followed_content_only() {
    let mut s = Store::new();
    let alice = register(&mut s, "alice");
    let bob = register(&mut s, "bob");
    let carol = register(&mut s, "carol");
    let mine = s.create(alice, "my own post").expect("creation");
    let bobs = s.create(bob, "bob's post").expect("creation");
    let carols = s.create(carol, "carol's post").expect("creation");
    s.follow(alice, bob).expect("follow");
    let items = s.timeline(alice).expect("timeline");
    let ids: Vec<u128> = items.iter().map(|i| i.id).collect();
    assert_eq!(items.len(), 2);
    assert!(ids.contains(&mine.id));
    assert!(ids.contains(&bobs.id));
    assert!(!ids.contains(&carols.id));
}

#[test]
fn timeline_is_newest_first_with_identifier_tie_break() {
    let mut s = Store::new();
    let alice = register(&mut s, "alice");
    let older = s.create(alice, "older").expect("creation");
    let tie_a = s.create(alice, "tie a").expect("creation");
    let tie_b = s.create(alice, "tie b").expect("creation");
    // Pin the creation instants: one older post, two sharing an instant.
    for t in s.tweets.iter_mut() {
        t.created_at = if t.id == older.id { 100 } else { 200 };
    }
    let items = s.timeline(alice).expect("timeline");
    let ids: Vec<u128> = items.iter().map(|i| i.id).collect();
    let (first_tie, second_tie) = if tie_a.id < tie_b.id {
        (tie_a.id, tie_b.id)
    } else {
        (tie_b.id, tie_a.id)
    };
    assert_eq!(ids, vec![first_tie, second_tie, older.id]);
}

#[test]
fn timeline_has_no_duplicates_when_following_yourself_is_impossible() {
    let mut s = Store::new();
    let alice = register(&mut s, "alice");
    let bob = register(&mut s, "bob");
    s.follow(alice, bob).expect("follow");
    s.create(bob, "one").expect("creation");
    s.create(bob, "two").expect("creation");
    let items = s.timeline(alice).expect("timeline");
    assert_eq!(items.len(), 2);
    assert_ne!(items[0].id, items[1].id);
}

#[test]
fn unfollowing_empties_the_borrowed_part_of_the_feed() {
    let mut s = Store::new();
    let alice = register(&mut s, "alice");
    let bob = register(&mut s, "bob");
    s.create(bob, "bob writes").expect("creation");
    s.follow(alice, bob).expect("follow");
    assert_eq!(s.timeline(alice).expect("timeline").len(), 1);
    s.unfollow(alice, bob).expect("unfollow");
    assert_eq!(s.timeline(alice).expect("timeline").len(), 0);
}

#[test]
fn scenario_alice_posts_bob_follows_and_likes() {
    let mut s = Store::new();
    let alice = register(&mut s, "alice");
    let bob = register(&mut s, "bob");
    let posted = s.create(alice, "hello #world").expect("creation");
    s.follow(bob, alice).expect("follow");
    s.like(bob, posted.id).expect("like");

    let bobs_view = s.timeline(bob).expect("timeline");
    assert_eq!(bobs_view.len(), 1);
    let item = &bobs_view[0];
    assert_eq!(item.content, "hello #world");
    assert_eq!(item.hashtags, vec!["world".to_string()]);
    assert_eq!(item.like_count, 1);
    assert!(item.is_liked);

    let alices_view = s.timeline(alice).expect("timeline");
    assert_eq!(alices_view.len(), 1);
    assert_eq!(alices_view[0].like_count, 1);
    assert!(!alices_view[0].is_liked);
}
