//! The feed aggregator: creating and deleting content, liking and
//! following, and composing viewer-scoped timelines with derived
//! per-item counters.

use vstd::prelude::*;

use crate::error::AppError;
use crate::hashtag::{extract_hashtags, spec_hashtags};
use crate::platform::{new_id, now_ts};
use crate::store::{
    follows_contain, like_count, likes_contain, tweet_id_taken, user_id_taken, Follow, Like, Store,
    Tweet,
};

verus! {

/// One timeline entry: a content item enriched with the viewer-scoped
/// counters derived at read time.
#[derive(Clone, Debug)]
pub struct FeedItem {
    pub id: u128,
    pub user_id: u128,
    pub content: String,
    pub created_at: u64,
    pub like_count: u64,
    pub is_liked: bool,
    pub hashtags: Vec<String>,
}

/// Whether `item` is exactly the enrichment of content item `t` for
/// `viewer`, given the like relation.
pub open spec fn matches_item(item: FeedItem, likes: Seq<Like>, viewer: Option<u128>, t: Tweet) -> bool {
    &&& item.id == t.id
    &&& item.user_id == t.user_id
    &&& item.content@ == t.content@
    &&& item.created_at == t.created_at
    &&& item.like_count == like_count(likes, t.id)
    &&& item.is_liked == (viewer matches Some(v) && likes_contain(likes, v, t.id))
    &&& item.hashtags.deep_view() == t.hashtags.deep_view()
}

/// Whether `t` belongs to `viewer`'s timeline: authored by the viewer or
/// by someone the viewer follows.
pub open spec fn in_timeline(follows: Seq<Follow>, viewer: u128, t: Tweet) -> bool {
    t.user_id == viewer || follows_contain(follows, viewer, t.user_id)
}

/// The timeline order on content items: newest first, ties broken by
/// identifier ascending. Strict, hence irreflexive.
pub open spec fn tweet_before(a: Tweet, b: Tweet) -> bool {
    a.created_at > b.created_at || (a.created_at == b.created_at && a.id < b.id)
}

/// The same order read off enriched items.
pub open spec fn item_before(a: FeedItem, b: FeedItem) -> bool {
    a.created_at > b.created_at || (a.created_at == b.created_at && a.id < b.id)
}

/// Whether `item` is the enrichment of some timeline-visible content
/// item.
pub open spec fn enriches_visible(
    item: FeedItem,
    tweets: Seq<Tweet>,
    likes: Seq<Like>,
    follows: Seq<Follow>,
    viewer: u128,
) -> bool {
    exists|j: int|
        0 <= j < tweets.len() && in_timeline(follows, viewer, #[trigger] tweets[j])
            && matches_item(item, likes, Some(viewer), tweets[j])
}

/// Whether the enrichment of content item `t` appears among `items`.
pub open spec fn appears_enriched(
    t: Tweet,
    items: Seq<FeedItem>,
    likes: Seq<Like>,
    viewer: u128,
) -> bool {
    exists|k: int|
        0 <= k < items.len() && matches_item(#[trigger] items[k], likes, Some(viewer), t)
}

/// Every element of `items` is the enrichment of some timeline-visible
/// content item.
pub open spec fn timeline_sound(
    items: Seq<FeedItem>,
    tweets: Seq<Tweet>,
    likes: Seq<Like>,
    follows: Seq<Follow>,
    viewer: u128,
) -> bool {
    forall|k: int|
        0 <= k < items.len() ==> enriches_visible(
            #[trigger] items[k],
            tweets,
            likes,
            follows,
            viewer,
        )
}

/// Every timeline-visible content item appears, enriched, among `items`.
pub open spec fn timeline_complete(
    items: Seq<FeedItem>,
    tweets: Seq<Tweet>,
    likes: Seq<Like>,
    follows: Seq<Follow>,
    viewer: u128,
) -> bool {
    forall|j: int|
        0 <= j < tweets.len() && in_timeline(follows, viewer, #[trigger] tweets[j])
            ==> appears_enriched(tweets[j], items, likes, viewer)
}

/// `items` is strictly ordered newest first (ties by identifier
/// ascending) and repeats no content item.
pub open spec fn timeline_sorted(items: Seq<FeedItem>) -> bool {
    forall|k1: int, k2: int|
        #![trigger items[k1], items[k2]]
        0 <= k1 < k2 < items.len() ==> item_before(items[k1], items[k2]) && items[k1].id
            != items[k2].id
}

/// What it means for `items` to be the timeline of `viewer`: exactly
/// the enrichments of the timeline-visible content items, each exactly
/// once, newest first.
pub open spec fn is_timeline(
    items: Seq<FeedItem>,
    tweets: Seq<Tweet>,
    likes: Seq<Like>,
    follows: Seq<Follow>,
    viewer: u128,
) -> bool {
    &&& timeline_sound(items, tweets, likes, follows, viewer)
    &&& timeline_complete(items, tweets, likes, follows, viewer)
    &&& timeline_sorted(items)
}

/// The like relation without the likes of one content item.
pub open spec fn likes_except(likes: Seq<Like>, tweet_id: u128) -> Seq<Like>
    decreases likes.len(),
{
    if likes.len() == 0 {
        Seq::empty()
    } else {
        likes_except(likes.drop_last(), tweet_id) + if likes.last().tweet_id == tweet_id {
            Seq::empty()
        } else {
            seq![likes.last()]
        }
    }
}

/// `likes_except` holds exactly the likes of the other content items.
pub proof fn lemma_likes_except(likes: Seq<Like>, tweet_id: u128)
    ensures
        forall|l: Like| #[trigger]
            likes_except(likes, tweet_id).contains(l) <==> likes.contains(l) && l.tweet_id
                != tweet_id,
    decreases likes.len(),
{
    broadcast use vstd::seq_lib::group_seq_properties;

    if likes.len() > 0 {
        lemma_likes_except(likes.drop_last(), tweet_id);
        let e = likes_except(likes, tweet_id);
        let d = likes_except(likes.drop_last(), tweet_id);
        assert forall|l: Like| #[trigger] e.contains(l) implies likes.contains(l) && l.tweet_id
            != tweet_id by {
            let w = choose|w: int| 0 <= w < e.len() && e[w] == l;
            if w < d.len() {
                assert(d.contains(l));
                let v = choose|v: int| 0 <= v < likes.drop_last().len() && likes.drop_last()[v] == l;
                assert(likes[v] == l);
            } else {
                assert(l == likes.last());
            }
        }
        assert forall|l: Like| likes.contains(l) && l.tweet_id != tweet_id implies #[trigger] e.contains(l) by {
            let w = choose|w: int| 0 <= w < likes.len() && likes[w] == l;
            if w < likes.len() - 1 {
                assert(likes.drop_last()[w] == l);
                assert(likes.drop_last().contains(l));
                assert(d.contains(l));
                let v = choose|v: int| 0 <= v < d.len() && d[v] == l;
                assert(e[v] == l);
            } else {
                assert(e.last() == l);
            }
        }
    }
}

/// `likes_except` keeps the at-most-one-like-per-pair rule.
pub proof fn lemma_likes_except_unique(likes: Seq<Like>, tweet_id: u128)
    requires
        forall|i: int, j: int|
            0 <= i < j < likes.len() ==> !(likes[i].user_id == likes[j].user_id
                && likes[i].tweet_id == likes[j].tweet_id),
    ensures
        forall|i: int, j: int|
            0 <= i < j < likes_except(likes, tweet_id).len() ==> !(likes_except(likes, tweet_id)[i].user_id
                == likes_except(likes, tweet_id)[j].user_id && likes_except(likes, tweet_id)[i].tweet_id
                == likes_except(likes, tweet_id)[j].tweet_id),
    decreases likes.len(),
{
    broadcast use vstd::seq_lib::group_seq_properties;

    if likes.len() > 0 {
        let prefix = likes.drop_last();
        assert forall|i: int, j: int|
            0 <= i < j < prefix.len() implies !(prefix[i].user_id == prefix[j].user_id
            && prefix[i].tweet_id == prefix[j].tweet_id) by {
            assert(prefix[i] == likes[i]);
            assert(prefix[j] == likes[j]);
        }
        lemma_likes_except_unique(prefix, tweet_id);
        lemma_likes_except(prefix, tweet_id);
        let e = likes_except(likes, tweet_id);
        let d = likes_except(prefix, tweet_id);
        if likes.last().tweet_id != tweet_id {
            assert forall|i: int, j: int|
                0 <= i < j < e.len() implies !(e[i].user_id == e[j].user_id && e[i].tweet_id
                == e[j].tweet_id) by {
                if j < d.len() {
                } else {
                    assert(e[j] == likes.last());
                    assert(e[i] == d[i]);
                    if e[i].user_id == likes.last().user_id && e[i].tweet_id
                        == likes.last().tweet_id {
                        assert(d.contains(e[i]));
                        assert(prefix.contains(e[i]));
                        let w = choose|w: int| 0 <= w < prefix.len() && prefix[w] == e[i];
                        assert(likes[w] == e[i]);
                        assert(likes[w].user_id == likes[likes.len() - 1].user_id
                            && likes[w].tweet_id == likes[likes.len() - 1].tweet_id);
                    }
                }
            }
        }
    }
}

/// A selection of tweet indices that is valid, complete, and sorted,
/// enriched index-by-index, yields the viewer's timeline.
#[verifier::rlimit(100)]
proof fn lemma_timeline_from_selection(
    items: Seq<FeedItem>,
    idxs: Seq<usize>,
    tweets: Seq<Tweet>,
    likes: Seq<Like>,
    follows: Seq<Follow>,
    viewer: u128,
)
    requires
        forall|i: int, j: int| 0 <= i < j < tweets.len() ==> tweets[i].id != tweets[j].id,
        items.len() == idxs.len(),
        forall|k: int|
            0 <= k < idxs.len() ==> (#[trigger] idxs[k]) < tweets.len() && in_timeline(
                follows,
                viewer,
                tweets[idxs[k] as int],
            ),
        forall|j: int|
            0 <= j < tweets.len() && in_timeline(follows, viewer, #[trigger] tweets[j])
                ==> exists|k: int| 0 <= k < idxs.len() && idxs[k] == j,
        forall|k1: int, k2: int|
            0 <= k1 < k2 < idxs.len() ==> tweet_before(
                tweets[idxs[k1] as int],
                tweets[idxs[k2] as int],
            ),
        forall|m: int|
            0 <= m < items.len() ==> matches_item(
                #[trigger] items[m],
                likes,
                Some(viewer),
                tweets[idxs[m] as int],
            ),
    ensures
        is_timeline(items, tweets, likes, follows, viewer),
{
    assert forall|k: int|
        0 <= k < items.len() implies enriches_visible(
        #[trigger] items[k],
        tweets,
        likes,
        follows,
        viewer,
    ) by {
        let j = idxs[k] as int;
        assert(0 <= j < tweets.len() && in_timeline(follows, viewer, tweets[j]) && matches_item(
            items[k],
            likes,
            Some(viewer),
            tweets[j],
        ));
    }
    assert forall|j: int|
        0 <= j < tweets.len() && in_timeline(follows, viewer, #[trigger] tweets[j])
        implies appears_enriched(tweets[j], items, likes, viewer) by {
        let w = choose|w: int| 0 <= w < idxs.len() && idxs[w] == j;
        assert(matches_item(items[w], likes, Some(viewer), tweets[j]));
    }
    assert forall|k1: int, k2: int|
        #![trigger items[k1], items[k2]]
        0 <= k1 < k2 < items.len() implies item_before(items[k1], items[k2]) && items[k1].id
        != items[k2].id by {
        let t1 = tweets[idxs[k1] as int];
        let t2 = tweets[idxs[k2] as int];
        assert(tweet_before(t1, t2));
        if idxs[k1] == idxs[k2] {
            assert(!tweet_before(t1, t1));
        } else {
            let a = idxs[k1] as int;
            let b = idxs[k2] as int;
            if a < b {
                assert(tweets[a].id != tweets[b].id);
            } else {
                assert(tweets[b].id != tweets[a].id);
            }
        }
    }
    assert(timeline_sound(items, tweets, likes, follows, viewer));
    assert(timeline_complete(items, tweets, likes, follows, viewer));
    assert(timeline_sorted(items));
}

impl Store {
    /// Create a content item for `viewer`: validate the body length (1
    /// to 280 characters), extract its hashtag labels, persist it and
    /// return the enriched item, with no likes yet.
    pub fn create(&mut self, viewer: u128, content: &str) -> (r: Result<FeedItem, AppError>)
        requires
            old(self).wf(),
        ensures
            final(self).wf(),
            !(1 <= content@.len() <= 280) <==> r == Err::<FeedItem, AppError>(
                AppError::ValidationError,
            ),
            (1 <= content@.len() <= 280 && !user_id_taken(old(self).users@, viewer)) <==> r
                == Err::<FeedItem, AppError>(AppError::NotFound),
            r is Err ==> *final(self) == *old(self) && (r matches Err(e) ==> e
                == AppError::ValidationError || e == AppError::NotFound || e == AppError::Internal),
            r matches Ok(item) ==> {
                &&& final(self).tweets@.len() == old(self).tweets@.len() + 1
                &&& final(self).tweets@.drop_last() == old(self).tweets@
                &&& final(self).tweets@.last().id == item.id
                &&& !tweet_id_taken(old(self).tweets@, item.id)
                &&& final(self).tweets@.last().user_id == viewer
                &&& final(self).tweets@.last().content@ == content@
                &&& matches_item(item, final(self).likes@, Some(viewer), final(self).tweets@.last())
                &&& item.like_count == 0
                &&& !item.is_liked
                &&& item.hashtags.deep_view() == spec_hashtags(content@)
                &&& final(self).users@ == old(self).users@
                &&& final(self).likes@ == old(self).likes@
                &&& final(self).follows@ == old(self).follows@
            },
    {
        let n = content.unicode_len();
        if n < 1 || n > 280 {
            return Err(AppError::ValidationError);
        }
        if self.find_user_by_id(viewer).is_none() {
            return Err(AppError::NotFound);
        }
        let id = new_id();
        if self.find_tweet_by_id(id).is_some() {
            // A collision of freshly drawn identifiers: catastrophic,
            // not user-correctable.
            return Err(AppError::Internal);
        }
        let now = now_ts();
        let tweet_tags = extract_hashtags(content);
        let item_tags = extract_hashtags(content);
        let tweet = Tweet {
            id,
            user_id: viewer,
            content: content.to_owned(),
            created_at: now,
            hashtags: tweet_tags,
        };
        let item = FeedItem {
            id,
            user_id: viewer,
            content: content.to_owned(),
            created_at: now,
            like_count: 0,
            is_liked: false,
            hashtags: item_tags,
        };
        self.tweets.push(tweet);
        proof {
            assert(self.tweets@.drop_last() =~= old(self).tweets@);
            assert forall|w: int|
                0 <= w < self.likes@.len() implies (#[trigger] self.likes@[w]).tweet_id != id by {
                assert(tweet_id_taken(old(self).tweets@, self.likes@[w].tweet_id));
            }
            crate::store::lemma_like_count_zero(self.likes@, id);
            assert forall|i: int|
                0 <= i < self.likes@.len() implies tweet_id_taken(
                self.tweets@,
                (#[trigger] self.likes@[i]).tweet_id,
            ) by {
                let w = choose|w: int|
                    0 <= w < old(self).tweets@.len() && old(self).tweets@[w].id
                        == self.likes@[i].tweet_id;
                assert(self.tweets@[w].id == self.likes@[i].tweet_id);
            }
        }
        Ok(item)
    }

    /// Delete a content item: only its author may, and its likes go with
    /// it, so that nothing orphaned stays reachable.
    pub fn delete(&mut self, viewer: u128, content_id: u128) -> (r: Result<(), AppError>)
        requires
            old(self).wf(),
        ensures
            final(self).wf(),
            !tweet_id_taken(old(self).tweets@, content_id) <==> r == Err::<(), AppError>(
                AppError::NotFound,
            ),
            (exists|j: int|
                0 <= j < old(self).tweets@.len() && (#[trigger] old(self).tweets@[j]).id
                    == content_id && old(self).tweets@[j].user_id != viewer) <==> r == Err::<
                (),
                AppError,
            >(AppError::Forbidden),
            r is Err ==> *final(self) == *old(self) && (r matches Err(e) ==> e
                == AppError::NotFound || e == AppError::Forbidden),
            r is Ok ==> exists|j: int|
                {
                    &&& 0 <= j < old(self).tweets@.len()
                    &&& (#[trigger] old(self).tweets@[j]).id == content_id
                    &&& old(self).tweets@[j].user_id == viewer
                    &&& final(self).tweets@ == old(self).tweets@.remove(j)
                } && final(self).likes@ == likes_except(old(self).likes@, content_id)
                && final(self).users@ == old(self).users@
                && final(self).follows@ == old(self).follows@,
    {
        let k = match self.find_tweet_by_id(content_id) {
            None => {
                return Err(AppError::NotFound);
            },
            Some(k) => k,
        };
        proof {
            assert forall|j: int|
                0 <= j < self.tweets@.len() && (#[trigger] self.tweets@[j]).id
                    == content_id implies j == k by {
                if j < k {
                    assert(self.tweets@[j].id != self.tweets@[k as int].id);
                } else if j > k {
                    assert(self.tweets@[k as int].id != self.tweets@[j].id);
                }
            }
        }
        if self.tweets[k].user_id != viewer {
            return Err(AppError::Forbidden);
        }
        self.tweets.remove(k);
        proof {
            old(self).tweets@.remove_ensures(k as int);
        }
        // Cascade: drop every like of the deleted item.
        let total = self.likes.len();
        let mut kept: Vec<Like> = Vec::new();
        let mut m: usize = 0;
        while m < total
            invariant
                total == self.likes@.len(),
                0 <= m <= total,
                kept@ == likes_except(self.likes@.take(m as int), content_id),
            decreases total - m,
        {
            proof {
                assert(self.likes@.take(m + 1 as int).drop_last() =~= self.likes@.take(m as int));
                assert(self.likes@.take(m + 1 as int).last() == self.likes@[m as int]);
                if self.likes@[m as int].tweet_id != content_id {
                    assert(likes_except(self.likes@.take(m + 1 as int), content_id) =~= likes_except(
                        self.likes@.take(m as int),
                        content_id,
                    ).push(self.likes@[m as int]));
                } else {
                    assert(likes_except(self.likes@.take(m + 1 as int), content_id) =~= likes_except(
                        self.likes@.take(m as int),
                        content_id,
                    ));
                }
            }
            let l = self.likes[m];
            if l.tweet_id != content_id {
                kept.push(l);
            }
            m += 1;
        }
        proof {
            assert(self.likes@.take(total as int) =~= self.likes@);
        }
        self.likes = kept;
        proof {
            lemma_likes_except(old(self).likes@, content_id);
            lemma_likes_except_unique(old(self).likes@, content_id);
            assert forall|i: int|
                0 <= i < self.likes@.len() implies user_id_taken(
                self.users@,
                (#[trigger] self.likes@[i]).user_id,
            ) && tweet_id_taken(self.tweets@, self.likes@[i].tweet_id) by {
                assert(likes_except(old(self).likes@, content_id).contains(self.likes@[i]));
                let w = choose|w: int|
                    0 <= w < old(self).likes@.len() && old(self).likes@[w] == self.likes@[i];
                assert(user_id_taken(old(self).users@, old(self).likes@[w].user_id));
                let t = choose|t: int|
                    0 <= t < old(self).tweets@.len() && old(self).tweets@[t].id == old(
                        self,
                    ).likes@[w].tweet_id;
                assert(t != k);
                if t < k {
                    assert(self.tweets@[t] == old(self).tweets@[t]);
                    assert(self.tweets@[t].id == self.likes@[i].tweet_id);
                } else {
                    assert(self.tweets@[t - 1] == old(self).tweets@[t]);
                    assert(self.tweets@[t - 1].id == self.likes@[i].tweet_id);
                }
            }
            assert forall|i: int|
                0 <= i < self.tweets@.len() implies user_id_taken(
                self.users@,
                #[trigger] self.tweets@[i].user_id,
            ) && 1 <= self.tweets@[i].content@.len() <= 280 && self.tweets@[i].hashtags.deep_view()
                == spec_hashtags(self.tweets@[i].content@) by {
                if i < k {
                    assert(self.tweets@[i] == old(self).tweets@[i]);
                } else {
                    assert(self.tweets@[i] == old(self).tweets@[i + 1]);
                }
            }
            assert forall|i: int, j: int|
                0 <= i < j < self.tweets@.len() implies self.tweets@[i].id != self.tweets@[j].id by {
                let oi = if i < k {
                    i
                } else {
                    i + 1
                };
                let oj = if j < k {
                    j
                } else {
                    j + 1
                };
                assert(self.tweets@[i] == old(self).tweets@[oi]);
                assert(self.tweets@[j] == old(self).tweets@[oj]);
            }
        }
        Ok(())
    }

    /// Enrich the content item at index `k` for `viewer`: its like
    /// count, whether the viewer liked it, and its hashtag labels.
    fn enrich(&self, k: usize, viewer: Option<u128>) -> (r: FeedItem)
        requires
            self.wf(),
            k < self.tweets@.len(),
        ensures
            matches_item(r, self.likes@, viewer, self.tweets@[k as int]),
    {
        let t = &self.tweets[k];
        let count = self.count_likes(t.id);
        let liked = match viewer {
            Some(v) => self.find_like(v, t.id).is_some(),
            None => false,
        };
        let tags = t.hashtags.clone();
        proof {
            assert forall|i: int| 0 <= i < tags@.len() implies tags@[i]@ == t.hashtags@[i]@ by {
                assert(cloned::<String>(t.hashtags@[i], tags@[i]));
            }
            assert(tags.deep_view() =~= t.hashtags.deep_view());
        }
        FeedItem {
            id: t.id,
            user_id: t.user_id,
            content: t.content.clone(),
            created_at: t.created_at,
            like_count: count,
            is_liked: liked,
            hashtags: tags,
        }
    }

    /// Exec mirror of [`tweet_before`].
    fn before(a: &Tweet, b: &Tweet) -> (r: bool)
        ensures
            r == tweet_before(*a, *b),
    {
        a.created_at > b.created_at || (a.created_at == b.created_at && a.id < b.id)
    }

    /// The indices of the content items of `viewer`'s timeline, in
    /// timeline order: every item authored by the viewer or a followee,
    /// each exactly once, newest first.
    fn select_sorted(&self, viewer: u128) -> (r: Vec<usize>)
        requires
            self.wf(),
        ensures
            forall|k: int|
                0 <= k < r@.len() ==> (#[trigger] r@[k]) < self.tweets@.len() && in_timeline(
                    self.follows@,
                    viewer,
                    self.tweets@[r@[k] as int],
                ),
            forall|j: int|
                0 <= j < self.tweets@.len() && in_timeline(
                    self.follows@,
                    viewer,
                    #[trigger] self.tweets@[j],
                ) ==> exists|k: int| 0 <= k < r@.len() && r@[k] == j,
            forall|k1: int, k2: int|
                0 <= k1 < k2 < r@.len() ==> tweet_before(
                    self.tweets@[r@[k1] as int],
                    self.tweets@[r@[k2] as int],
                ),
    {
        let n = self.tweets.len();
        let mut r: Vec<usize> = Vec::new();
        let mut i: usize = 0;
        while i < n
            invariant
                self.wf(),
                n == self.tweets@.len(),
                0 <= i <= n,
                forall|k: int|
                    0 <= k < r@.len() ==> (#[trigger] r@[k]) < i && in_timeline(
                        self.follows@,
                        viewer,
                        self.tweets@[r@[k] as int],
                    ),
                forall|j: int|
                    0 <= j < i && in_timeline(self.follows@, viewer, #[trigger] self.tweets@[j])
                        ==> exists|k: int| 0 <= k < r@.len() && r@[k] == j,
                forall|k1: int, k2: int|
                    0 <= k1 < k2 < r@.len() ==> tweet_before(
                        self.tweets@[r@[k1] as int],
                        self.tweets@[r@[k2] as int],
                    ),
            decreases n - i,
        {
            let visible = self.tweets[i].user_id == viewer || self.find_follow(
                viewer,
                self.tweets[i].user_id,
            ).is_some();
            if visible {
                let ghost r_old = r@;
                let len = r.len();
                let mut p: usize = 0;
                while p < len && !Self::before(&self.tweets[i], &self.tweets[r[p]])
                    invariant
                        self.wf(),
                        n == self.tweets@.len(),
                        i < n,
                        len == r@.len(),
                        0 <= p <= len,
                        forall|k: int|
                            0 <= k < r@.len() ==> (#[trigger] r@[k]) < i && in_timeline(
                                self.follows@,
                                viewer,
                                self.tweets@[r@[k] as int],
                            ),
                        forall|k1: int, k2: int|
                            0 <= k1 < k2 < r@.len() ==> tweet_before(
                                self.tweets@[r@[k1] as int],
                                self.tweets@[r@[k2] as int],
                            ),
                        forall|m: int|
                            0 <= m < p ==> tweet_before(
                                self.tweets@[(#[trigger] r@[m]) as int],
                                self.tweets@[i as int],
                            ),
                    decreases len - p,
                {
                    proof {
                        let tp = self.tweets@[r@[p as int] as int];
                        let ti = self.tweets@[i as int];
                        assert(r@[p as int] < i);
                        assert(tp.id != ti.id);
                    }
                    p += 1;
                }
                proof {
                    if p < len {
                        assert(tweet_before(
                            self.tweets@[i as int],
                            self.tweets@[r@[p as int] as int],
                        ));
                    }
                }
                r.insert(p, i);
                proof {
                    r_old.insert_ensures(p as int, i);
                    assert(r@ == r_old.insert(p as int, i));
                    assert forall|k1: int, k2: int|
                        0 <= k1 < k2 < r@.len() implies tweet_before(
                        self.tweets@[r@[k1] as int],
                        self.tweets@[r@[k2] as int],
                    ) by {
                        let ti = self.tweets@[i as int];
                        if k1 == p {
                            // new element before everything after it
                            let t2 = self.tweets@[r_old[k2 - 1] as int];
                            if k2 - 1 > p {
                                assert(tweet_before(self.tweets@[r_old[p as int] as int], t2));
                            }
                        } else if k2 == p {
                            // everything before stays before the new element
                            assert(tweet_before(self.tweets@[r_old[k1] as int], ti));
                        } else if k1 < p && k2 > p {
                            assert(tweet_before(self.tweets@[r_old[k1] as int], ti));
                            if k2 - 1 > p {
                                assert(tweet_before(
                                    self.tweets@[r_old[k1] as int],
                                    self.tweets@[r_old[k2 - 1] as int],
                                ));
                            }
                        }
                    }
                    assert forall|j: int|
                        0 <= j < i + 1 && in_timeline(
                            self.follows@,
                            viewer,
                            #[trigger] self.tweets@[j],
                        ) implies exists|k: int| 0 <= k < r@.len() && r@[k] == j by {
                        if j == i {
                            assert(r@[p as int] == i);
                        } else {
                            let k = choose|k: int| 0 <= k < r_old.len() && r_old[k] == j;
                            if k < p {
                                assert(r@[k] == j);
                            } else {
                                assert(r@[k + 1] == j);
                            }
                        }
                    }
                }
            }
            i += 1;
        }
        r
    }

    /// Compose `viewer`'s timeline: all content authored by the viewer
    /// or a followee, newest first (ties by identifier ascending), each
    /// item exactly once, enriched with its derived counters.
    #[verifier::rlimit(60)]
    pub fn timeline(&self, viewer: u128) -> (r: Result<Vec<FeedItem>, AppError>)
        requires
            self.wf(),
        ensures
            match r {
                Ok(items) => user_id_taken(self.users@, viewer) && is_timeline(
                    items@,
                    self.tweets@,
                    self.likes@,
                    self.follows@,
                    viewer,
                ),
                Err(e) => e == AppError::NotFound && !user_id_taken(self.users@, viewer),
            },
    {
        if self.find_user_by_id(viewer).is_none() {
            return Err(AppError::NotFound);
        }
        let idxs = self.select_sorted(viewer);
        let total = idxs.len();
        let mut items: Vec<FeedItem> = Vec::new();
        let mut k: usize = 0;
        while k < total
            invariant
                self.wf(),
                total == idxs@.len(),
                0 <= k <= total,
                items@.len() == k,
                forall|m: int|
                    0 <= m < idxs@.len() ==> (#[trigger] idxs@[m]) < self.tweets@.len()
                        && in_timeline(self.follows@, viewer, self.tweets@[idxs@[m] as int]),
                forall|m: int|
                    0 <= m < k ==> matches_item(
                        #[trigger] items@[m],
                        self.likes@,
                        Some(viewer),
                        self.tweets@[idxs@[m] as int],
                    ),
            decreases total - k,
        {
            let item = self.enrich(idxs[k], Some(viewer));
            items.push(item);
            k += 1;
        }
        proof {
            lemma_timeline_from_selection(
                items@,
                idxs@,
                self.tweets@,
                self.likes@,
                self.follows@,
                viewer,
            );
        }
        Ok(items)
    }

    /// Look one content item up and enrich it for `viewer`; an absent
    /// viewer never counts as having liked anything.
    pub fn item(&self, content_id: u128, viewer: Option<u128>) -> (r: Option<FeedItem>)
        requires
            self.wf(),
        ensures
            match r {
                Some(item) => exists|j: int|
                    0 <= j < self.tweets@.len() && (#[trigger] self.tweets@[j]).id == content_id
                        && matches_item(item, self.likes@, viewer, self.tweets@[j]),
                None => !tweet_id_taken(self.tweets@, content_id),
            },
    {
        match self.find_tweet_by_id(content_id) {
            None => None,
            Some(k) => Some(self.enrich(k, viewer)),
        }
    }

    /// Record that `viewer` likes `content_id`: at most one like per
    /// pair, enforced at the insertion.
    pub fn like(&mut self, viewer: u128, content_id: u128) -> (r: Result<Like, AppError>)
        requires
            old(self).wf(),
        ensures
            final(self).wf(),
            (!user_id_taken(old(self).users@, viewer) || !tweet_id_taken(
                old(self).tweets@,
                content_id,
            )) <==> r == Err::<Like, AppError>(AppError::NotFound),
            (user_id_taken(old(self).users@, viewer) && tweet_id_taken(
                old(self).tweets@,
                content_id,
            ) && likes_contain(old(self).likes@, viewer, content_id)) <==> r == Err::<
                Like,
                AppError,
            >(AppError::Conflict),
            r is Err ==> *final(self) == *old(self) && (r matches Err(e) ==> e
                == AppError::NotFound || e == AppError::Conflict),
            r matches Ok(l) ==> {
                &&& l.user_id == viewer
                &&& l.tweet_id == content_id
                &&& !likes_contain(old(self).likes@, viewer, content_id)
                &&& final(self).likes@ == old(self).likes@.push(l)
                &&& final(self).users@ == old(self).users@
                &&& final(self).tweets@ == old(self).tweets@
                &&& final(self).follows@ == old(self).follows@
            },
    {
        if self.find_user_by_id(viewer).is_none() || self.find_tweet_by_id(content_id).is_none() {
            return Err(AppError::NotFound);
        }
        if self.find_like(viewer, content_id).is_some() {
            return Err(AppError::Conflict);
        }
        let now = now_ts();
        let l = Like { user_id: viewer, tweet_id: content_id, created_at: now };
        self.likes.push(l);
        Ok(l)
    }

    /// Remove `viewer`'s like of `content_id`.
    pub fn unlike(&mut self, viewer: u128, content_id: u128) -> (r: Result<(), AppError>)
        requires
            old(self).wf(),
        ensures
            final(self).wf(),
            (!tweet_id_taken(old(self).tweets@, content_id) || !likes_contain(
                old(self).likes@,
                viewer,
                content_id,
            )) <==> r == Err::<(), AppError>(AppError::NotFound),
            r is Err ==> *final(self) == *old(self) && r == Err::<(), AppError>(
                AppError::NotFound,
            ),
            r is Ok ==> exists|i: int|
                {
                    &&& 0 <= i < old(self).likes@.len()
                    &&& (#[trigger] old(self).likes@[i]).user_id == viewer
                    &&& old(self).likes@[i].tweet_id == content_id
                    &&& final(self).likes@ == old(self).likes@.remove(i)
                } && final(self).users@ == old(self).users@ && final(self).tweets@ == old(
                self,
            ).tweets@ && final(self).follows@ == old(self).follows@,
    {
        if self.find_tweet_by_id(content_id).is_none() {
            return Err(AppError::NotFound);
        }
        match self.find_like(viewer, content_id) {
            None => Err(AppError::NotFound),
            Some(k) => {
                self.likes.remove(k);
                proof {
                    old(self).likes@.remove_ensures(k as int);
                }
                Ok(())
            },
        }
    }

    /// Record that `follower_id` follows `followee_id`: never a self
    /// edge, at most one edge per ordered pair.
    pub fn follow(&mut self, follower_id: u128, followee_id: u128) -> (r: Result<Follow, AppError>)
        requires
            old(self).wf(),
        ensures
            final(self).wf(),
            (follower_id == followee_id) <==> r == Err::<Follow, AppError>(
                AppError::ValidationError,
            ),
            (follower_id != followee_id && (!user_id_taken(old(self).users@, follower_id)
                || !user_id_taken(old(self).users@, followee_id))) <==> r == Err::<
                Follow,
                AppError,
            >(AppError::NotFound),
            (follower_id != followee_id && user_id_taken(old(self).users@, follower_id)
                && user_id_taken(old(self).users@, followee_id) && follows_contain(
                old(self).follows@,
                follower_id,
                followee_id,
            )) <==> r == Err::<Follow, AppError>(AppError::Conflict),
            r is Err ==> *final(self) == *old(self) && (r matches Err(e) ==> e
                == AppError::ValidationError || e == AppError::NotFound || e == AppError::Conflict),
            r matches Ok(f) ==> {
                &&& f.follower_id == follower_id
                &&& f.followee_id == followee_id
                &&& !follows_contain(old(self).follows@, follower_id, followee_id)
                &&& final(self).follows@ == old(self).follows@.push(f)
                &&& final(self).users@ == old(self).users@
                &&& final(self).tweets@ == old(self).tweets@
                &&& final(self).likes@ == old(self).likes@
            },
    {
        if follower_id == followee_id {
            return Err(AppError::ValidationError);
        }
        if self.find_user_by_id(follower_id).is_none() || self.find_user_by_id(
            followee_id,
        ).is_none() {
            return Err(AppError::NotFound);
        }
        if self.find_follow(follower_id, followee_id).is_some() {
            return Err(AppError::Conflict);
        }
        let now = now_ts();
        let f = Follow { follower_id, followee_id, created_at: now };
        self.follows.push(f);
        Ok(f)
    }

    /// Remove the follow edge from `follower_id` to `followee_id`.
    pub fn unfollow(&mut self, follower_id: u128, followee_id: u128) -> (r: Result<(), AppError>)
        requires
            old(self).wf(),
        ensures
            final(self).wf(),
            (!follows_contain(old(self).follows@, follower_id, followee_id)) <==> r == Err::<
                (),
                AppError,
            >(AppError::NotFound),
            r is Err ==> *final(self) == *old(self) && r == Err::<(), AppError>(
                AppError::NotFound,
            ),
            r is Ok ==> exists|i: int|
                {
                    &&& 0 <= i < old(self).follows@.len()
                    &&& (#[trigger] old(self).follows@[i]).follower_id == follower_id
                    &&& old(self).follows@[i].followee_id == followee_id
                    &&& final(self).follows@ == old(self).follows@.remove(i)
                } && final(self).users@ == old(self).users@ && final(self).tweets@ == old(
                self,
            ).tweets@ && final(self).likes@ == old(self).likes@,
    {
        match self.find_follow(follower_id, followee_id) {
            None => Err(AppError::NotFound),
            Some(k) => {
                self.follows.remove(k);
                proof {
                    old(self).follows@.remove_ensures(k as int);
                }
                Ok(())
            },
        }
    }
}

} // verus!
