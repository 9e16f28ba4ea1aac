use minitweet::store::{RegisterRequest, Store};

const SECRET: &str = "graph-test-secret";

fn register(s: &mut Store, name: &str) -> u128 {
    let req = RegisterRequest {
        username: name.to_string(),
        email: format!("{}@example.com", name),
        password: "password".to_string(),
    };
    s.register(&req, SECRET).expect("registration").user.id
}

#[test]
fn followees_lists_each_followee_once() {
    let mut s = Store::new();
    let alice = register(&mut s, "alice");
    let bob = register(&mut s, "bob");
    let carol = register(&mut s, "carol");
    s.follow(alice, bob).expect("follow");
    s.follow(alice, carol).expect("follow");
    s.follow(bob, carol).expect("follow");
    let mut followees = s.followees_of(alice);
    followees.sort();
    let mut expected = vec![bob, carol];
    expected.sort();
    assert_eq!(followees, expected);
    assert_eq!(s.followees_of(carol), Vec::<u128>::new());
}

#[test]
fn like_counts_skips_unliked_items_and_keeps_order() {
    let mut s = Store::new();
    let alice = register(&mut s, "alice");
    let bob = register(&mut s, "bob");
    let first = s.create(alice, "first").expect("creation");
    let second = s.create(alice, "second").expect("creation");
    let third = s.create(alice, "third").expect("creation");
    s.like(bob, first.id).expect("like");
    s.like(alice, first.id).expect("like");
    s.like(bob, third.id).expect("like");
    let counts = s.like_counts(&vec![first.id, second.id, third.id]);
    assert_eq!(counts, vec![(first.id, 2), (third.id, 1)]);
}

#[test]
fn liked_by_is_empty_for_the_anonymous_viewer() {
    let mut s = Store::new();
    let alice = register(&mut s, "alice");
    let post = s.create(alice, "post").expect("creation");
    s.like(alice, post.id).expect("like");
    assert_eq!(s.liked_by(None, &vec![post.id]), Vec::<u128>::new());
}

#[test]
fn liked_by_selects_the_viewers_likes_in_order() {
    let mut s = Store::new();
    let alice = register(&mut s, "alice");
    let bob = register(&mut s, "bob");
    let a = s.create(alice, "a").expect("creation");
    let b = s.create(alice, "b").expect("creation");
    let c = s.create(alice, "c").expect("creation");
    s.like(bob, a.id).expect("like");
    s.like(bob, c.id).expect("like");
    s.like(alice, b.id).expect("like");
    assert_eq!(s.liked_by(Some(bob), &vec![a.id, b.id, c.id]), vec![a.id, c.id]);
}

#[test]
fn hashtags_of_returns_labels_for_tagged_items_only() {
    let mut s = Store::new();
    let alice = register(&mut s, "alice");
    let tagged = s.create(alice, "#one and #two").expect("creation");
    let plain = s.create(alice, "no labels here").expect("creation");
    let entries = s.hashtags_of(&vec![tagged.id, plain.id, 98_765]);
    assert_eq!(entries.len(), 1);
    assert_eq!(entries[0].0, tagged.id);
    assert_eq!(entries[0].1, vec!["one".to_string(), "two".to_string()]);
}
