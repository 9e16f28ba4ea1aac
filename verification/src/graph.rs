//! The social graph reader: batched "who follows whom" and "who liked
//! what" lookups, each answered in one pass over the store.

use vstd::prelude::*;

use crate::store::{
    follows_contain, like_count, likes_contain, tweet_id_taken, Like, Store, Tweet,
};

verus! {

/// The per-item like counts for `ids`, in their order; items with no
/// likes are absent (callers default to zero).
pub open spec fn like_count_entries(likes: Seq<Like>, ids: Seq<u128>) -> Seq<(u128, u64)>
    decreases ids.len(),
{
    if ids.len() == 0 {
        Seq::empty()
    } else {
        like_count_entries(likes, ids.drop_last()) + if like_count(likes, ids.last()) > 0 {
            seq![(ids.last(), like_count(likes, ids.last()) as u64)]
        } else {
            Seq::empty()
        }
    }
}

/// The subsequence of `ids` that `viewer` has liked.
pub open spec fn liked_subset(likes: Seq<Like>, viewer: u128, ids: Seq<u128>) -> Seq<u128>
    decreases ids.len(),
{
    if ids.len() == 0 {
        Seq::empty()
    } else {
        liked_subset(likes, viewer, ids.drop_last()) + if likes_contain(
            likes,
            viewer,
            ids.last(),
        ) {
            seq![ids.last()]
        } else {
            Seq::empty()
        }
    }
}

/// The hashtag labels stored for the content item carrying `id`; empty
/// when no such item exists.
pub open spec fn tags_of(tweets: Seq<Tweet>, id: u128) -> Seq<Seq<char>> {
    if tweet_id_taken(tweets, id) {
        let j = choose|j: int| 0 <= j < tweets.len() && tweets[j].id == id;
        tweets[j].hashtags.deep_view()
    } else {
        Seq::empty()
    }
}

/// The per-item hashtag labels for `ids`, in their order; items without
/// labels (or without a content item) are absent.
pub open spec fn hashtag_entries(tweets: Seq<Tweet>, ids: Seq<u128>) -> Seq<(u128, Seq<Seq<char>>)>
    decreases ids.len(),
{
    if ids.len() == 0 {
        Seq::empty()
    } else {
        hashtag_entries(tweets, ids.drop_last()) + if tags_of(tweets, ids.last()).len() > 0 {
            seq![(ids.last(), tags_of(tweets, ids.last()))]
        } else {
            Seq::empty()
        }
    }
}

/// Whether `x` occurs in `v`.
fn contains_id(v: &Vec<u128>, x: u128) -> (r: bool)
    ensures
        r == v@.contains(x),
{
    let n = v.len();
    let mut k: usize = 0;
    while k < n
        invariant
            n == v@.len(),
            0 <= k <= n,
            forall|m: int| 0 <= m < k ==> v@[m] != x,
        decreases n - k,
    {
        if v[k] == x {
            return true;
        }
        k += 1;
    }
    false
}

impl Store {
    /// The identifiers `user_id` follows, each exactly once.
    pub fn followees_of(&self, user_id: u128) -> (r: Vec<u128>)
        requires
            self.wf(),
        ensures
            forall|u: u128| #[trigger] r@.contains(u) <==> follows_contain(self.follows@, user_id, u),
            r@.no_duplicates(),
    {
        let n = self.follows.len();
        let mut r: Vec<u128> = Vec::new();
        let mut i: usize = 0;
        while i < n
            invariant
                n == self.follows@.len(),
                0 <= i <= n,
                forall|k: int|
                    #![trigger r@[k]]
                    0 <= k < r@.len() ==> follows_contain(self.follows@, user_id, r@[k]),
                forall|m: int|
                    0 <= m < i && (#[trigger] self.follows@[m]).follower_id == user_id
                        ==> r@.contains(self.follows@[m].followee_id),
                forall|k1: int, k2: int| 0 <= k1 < k2 < r@.len() ==> r@[k1] != r@[k2],
            decreases n - i,
        {
            let f = self.follows[i].followee_id;
            if self.follows[i].follower_id == user_id && !contains_id(&r, f) {
                let ghost r_old = r@;
                r.push(f);
                proof {
                    assert(r@ == r_old.push(f));
                    assert forall|k: int|
                        #![trigger r@[k]]
                        0 <= k < r@.len() implies follows_contain(
                        self.follows@,
                        user_id,
                        r@[k],
                    ) by {
                        if k < r_old.len() {
                            assert(r@[k] == r_old[k]);
                        } else {
                            assert(r@[k] == f);
                            assert(self.follows@[i as int].follower_id == user_id
                                && self.follows@[i as int].followee_id == f);
                        }
                    }
                    assert forall|m: int|
                        0 <= m < i + 1 && (#[trigger] self.follows@[m]).follower_id
                            == user_id implies r@.contains(self.follows@[m].followee_id) by {
                        if m < i {
                            let w = choose|w: int|
                                0 <= w < r_old.len() && r_old[w] == self.follows@[m].followee_id;
                            assert(r@[w] == self.follows@[m].followee_id);
                        } else {
                            assert(r@[r_old.len() as int] == self.follows@[m].followee_id);
                        }
                    }
                    assert forall|k1: int, k2: int|
                        0 <= k1 < k2 < r@.len() implies r@[k1] != r@[k2] by {
                        if k2 < r_old.len() {
                            assert(r@[k1] == r_old[k1] && r@[k2] == r_old[k2]);
                        } else {
                            assert(r@[k2] == f);
                            assert(r@[k1] == r_old[k1]);
                            assert(!r_old.contains(f));
                        }
                    }
                }
            } else {
                proof {
                    assert forall|m: int|
                        0 <= m < i + 1 && (#[trigger] self.follows@[m]).follower_id
                            == user_id implies r@.contains(self.follows@[m].followee_id) by {
                    }
                }
            }
            i += 1;
        }
        proof {
            assert forall|u: u128| #[trigger] r@.contains(u) implies follows_contain(
                self.follows@,
                user_id,
                u,
            ) by {
                let k = choose|k: int| 0 <= k < r@.len() && r@[k] == u;
            }
            assert forall|u: u128| follows_contain(self.follows@, user_id, u) implies #[trigger] r@.contains(u) by {
                let m = choose|m: int|
                    0 <= m < self.follows@.len() && (#[trigger] self.follows@[m]).follower_id
                        == user_id && self.follows@[m].followee_id == u;
            }
        }
        r
    }

    /// The like count of each of `content_ids`, in one pass; items with
    /// zero likes are absent.
    pub fn like_counts(&self, content_ids: &Vec<u128>) -> (r: Vec<(u128, u64)>)
        requires
            self.wf(),
        ensures
            r@ == like_count_entries(self.likes@, content_ids@),
    {
        let total = content_ids.len();
        let mut r: Vec<(u128, u64)> = Vec::new();
        let mut k: usize = 0;
        while k < total
            invariant
                self.wf(),
                total == content_ids@.len(),
                0 <= k <= total,
                r@ == like_count_entries(self.likes@, content_ids@.take(k as int)),
            decreases total - k,
        {
            proof {
                assert(content_ids@.take(k + 1 as int).drop_last() =~= content_ids@.take(k as int));
                assert(content_ids@.take(k + 1 as int).last() == content_ids@[k as int]);
            }
            let id = content_ids[k];
            let count = self.count_likes(id);
            if count > 0 {
                r.push((id, count));
                proof {
                    assert(r@ =~= like_count_entries(
                        self.likes@,
                        content_ids@.take(k + 1 as int),
                    ));
                }
            } else {
                proof {
                    assert(r@ =~= like_count_entries(
                        self.likes@,
                        content_ids@.take(k + 1 as int),
                    ));
                }
            }
            k += 1;
        }
        proof {
            assert(content_ids@.take(total as int) =~= content_ids@);
        }
        r
    }

    /// The subset of `content_ids` the viewer has liked; empty when the
    /// viewer is anonymous.
    pub fn liked_by(&self, viewer: Option<u128>, content_ids: &Vec<u128>) -> (r: Vec<u128>)
        requires
            self.wf(),
        ensures
            match viewer {
                None => r@.len() == 0,
                Some(v) => r@ == liked_subset(self.likes@, v, content_ids@),
            },
    {
        let v = match viewer {
            None => {
                return Vec::new();
            },
            Some(v) => v,
        };
        let total = content_ids.len();
        let mut r: Vec<u128> = Vec::new();
        let mut k: usize = 0;
        while k < total
            invariant
                self.wf(),
                total == content_ids@.len(),
                0 <= k <= total,
                r@ == liked_subset(self.likes@, v, content_ids@.take(k as int)),
            decreases total - k,
        {
            proof {
                assert(content_ids@.take(k + 1 as int).drop_last() =~= content_ids@.take(k as int));
                assert(content_ids@.take(k + 1 as int).last() == content_ids@[k as int]);
            }
            let id = content_ids[k];
            if self.find_like(v, id).is_some() {
                r.push(id);
            }
            proof {
                assert(r@ =~= liked_subset(self.likes@, v, content_ids@.take(k + 1 as int)));
            }
            k += 1;
        }
        proof {
            assert(content_ids@.take(total as int) =~= content_ids@);
        }
        r
    }

    /// The stored hashtag labels of each of `content_ids`, in one pass;
    /// items without labels are absent.
    pub fn hashtags_of(&self, content_ids: &Vec<u128>) -> (r: Vec<(u128, Vec<String>)>)
        requires
            self.wf(),
        ensures
            r.deep_view() == hashtag_entries(self.tweets@, content_ids@),
    {
        let total = content_ids.len();
        let mut r: Vec<(u128, Vec<String>)> = Vec::new();
        let mut k: usize = 0;
        while k < total
            invariant
                self.wf(),
                total == content_ids@.len(),
                0 <= k <= total,
                r.deep_view() == hashtag_entries(self.tweets@, content_ids@.take(k as int)),
            decreases total - k,
        {
            let ghost r_deep = r.deep_view();
            proof {
                assert(content_ids@.take(k + 1 as int).drop_last() =~= content_ids@.take(k as int));
                assert(content_ids@.take(k + 1 as int).last() == content_ids@[k as int]);
            }
            let id = content_ids[k];
            match self.find_tweet_by_id(id) {
                None => {
                    proof {
                        assert(r.deep_view() =~= hashtag_entries(
                            self.tweets@,
                            content_ids@.take(k + 1 as int),
                        ));
                    }
                },
                Some(t) => {
                    proof {
                        let j = choose|j: int|
                            0 <= j < self.tweets@.len() && self.tweets@[j].id == id;
                        if j < t {
                            assert(self.tweets@[j].id != self.tweets@[t as int].id);
                        } else if j > t {
                            assert(self.tweets@[t as int].id != self.tweets@[j].id);
                        }
                        assert(tags_of(self.tweets@, id) == self.tweets@[t as int].hashtags.deep_view());
                    }
                    if self.tweets[t].hashtags.len() > 0 {
                        let tags = self.tweets[t].hashtags.clone();
                        proof {
                            assert forall|i: int|
                                0 <= i < tags@.len() implies tags@[i]@
                                == self.tweets@[t as int].hashtags@[i]@ by {
                                assert(cloned::<String>(self.tweets@[t as int].hashtags@[i], tags@[i]));
                            }
                            assert(tags.deep_view() =~= self.tweets@[t as int].hashtags.deep_view());
                        }
                        r.push((id, tags));
                        proof {
                            assert(r.deep_view() =~= r_deep.push(
                                (id, tags_of(self.tweets@, id)),
                            ));
                            assert(r.deep_view() =~= hashtag_entries(
                                self.tweets@,
                                content_ids@.take(k + 1 as int),
                            ));
                        }
                    } else {
                        proof {
                            assert(self.tweets@[t as int].hashtags.deep_view().len() == 0);
                            assert(r.deep_view() =~= hashtag_entries(
                                self.tweets@,
                                content_ids@.take(k + 1 as int),
                            ));
                        }
                    }
                },
            }
            k += 1;
        }
        proof {
            assert(content_ids@.take(total as int) =~= content_ids@);
        }
        r
    }
}

} // verus!
