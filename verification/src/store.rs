//! The data model: users, content items, likes and follow edges, held in
//! one in-memory store with its referential and uniqueness invariants.

use vstd::prelude::*;

use crate::credential::{bcrypt_credential, bcrypt_matches, hash_password, verify_password};
use crate::error::AppError;
use crate::hashtag::spec_hashtags;
use crate::platform::{new_id, now_ts};
use crate::token::{issue_token_at, token_claims, TOKEN_LIFETIME_SECONDS};

verus! {

/// A registered account. The password is held only in hashed form.
#[derive(Clone, Debug)]
pub struct User {
    pub id: u128,
    pub username: String,
    pub email: String,
    pub password_hash: String,
    pub created_at: u64,
}

/// A content item: a short post owned by its author, with the hashtag
/// labels extracted from its body at creation.
#[derive(Debug)]
pub struct Tweet {
    pub id: u128,
    pub user_id: u128,
    pub content: String,
    pub created_at: u64,
    pub hashtags: Vec<String>,
}

/// One user's like of one content item; at most one per pair.
#[derive(Clone, Copy, Debug, PartialEq, Eq, Structural)]
pub struct Like {
    pub user_id: u128,
    pub tweet_id: u128,
    pub created_at: u64,
}

/// A directed follow edge; at most one per ordered pair, never a self
/// edge.
#[derive(Clone, Copy, Debug, PartialEq, Eq, Structural)]
pub struct Follow {
    pub follower_id: u128,
    pub followee_id: u128,
    pub created_at: u64,
}

/// Input of a registration.
#[derive(Clone, Debug)]
pub struct RegisterRequest {
    pub username: String,
    pub email: String,
    pub password: String,
}

/// Input of a login.
#[derive(Clone, Debug)]
pub struct LoginRequest {
    pub email: String,
    pub password: String,
}

/// Input of a content creation.
#[derive(Clone, Debug)]
pub struct CreateTweetRequest {
    pub content: String,
}

/// The public face of an account: everything but the credential.
#[derive(Clone, Debug)]
pub struct UserResponse {
    pub id: u128,
    pub username: String,
    pub email: String,
}

/// What a successful registration or login hands back: a session token
/// and the account it identifies.
#[derive(Clone, Debug)]
pub struct AuthResponse {
    pub token: String,
    pub user: UserResponse,
}

/// Whether some user already carries this email.
pub open spec fn email_taken(users: Seq<User>, email: Seq<char>) -> bool {
    exists|i: int| 0 <= i < users.len() && users[i].email@ == email
}

/// Whether some user already carries this username.
pub open spec fn username_taken(users: Seq<User>, username: Seq<char>) -> bool {
    exists|i: int| 0 <= i < users.len() && users[i].username@ == username
}

/// Whether some user carries this identifier.
pub open spec fn user_id_taken(users: Seq<User>, id: u128) -> bool {
    exists|i: int| 0 <= i < users.len() && users[i].id == id
}

/// Whether some content item carries this identifier.
pub open spec fn tweet_id_taken(tweets: Seq<Tweet>, id: u128) -> bool {
    exists|i: int| 0 <= i < tweets.len() && tweets[i].id == id
}

/// Whether `user_id` has liked `tweet_id`.
pub open spec fn likes_contain(likes: Seq<Like>, user_id: u128, tweet_id: u128) -> bool {
    exists|i: int|
        0 <= i < likes.len() && likes[i].user_id == user_id && likes[i].tweet_id == tweet_id
}

/// Whether `follower_id` follows `followee_id`.
pub open spec fn follows_contain(follows: Seq<Follow>, follower_id: u128, followee_id: u128) -> bool {
    exists|i: int|
        0 <= i < follows.len() && follows[i].follower_id == follower_id
            && follows[i].followee_id == followee_id
}

/// How many likes a content item has; always derived, never stored.
pub open spec fn like_count(likes: Seq<Like>, tweet_id: u128) -> nat
    decreases likes.len(),
{
    if likes.len() == 0 {
        0
    } else {
        like_count(likes.drop_last(), tweet_id) + if likes.last().tweet_id == tweet_id {
            1nat
        } else {
            0nat
        }
    }
}

/// Adding one like raises its item's count by exactly one and leaves
/// every other item's count unchanged.
pub proof fn lemma_like_count_push(likes: Seq<Like>, l: Like, other: u128)
    ensures
        like_count(likes.push(l), l.tweet_id) == like_count(likes, l.tweet_id) + 1,
        other != l.tweet_id ==> like_count(likes.push(l), other) == like_count(likes, other),
{
    assert(likes.push(l).drop_last() =~= likes);
}

/// A count is zero exactly when no like references the item.
pub proof fn lemma_like_count_zero(likes: Seq<Like>, tweet_id: u128)
    ensures
        (like_count(likes, tweet_id) == 0) <==> forall|i: int|
            0 <= i < likes.len() ==> likes[i].tweet_id != tweet_id,
    decreases likes.len(),
{
    if likes.len() > 0 {
        lemma_like_count_zero(likes.drop_last(), tweet_id);
        if like_count(likes, tweet_id) == 0 {
            assert forall|i: int| 0 <= i < likes.len() implies likes[i].tweet_id != tweet_id by {
                if i < likes.len() - 1 {
                    assert(likes.drop_last()[i] == likes[i]);
                }
            }
        } else {
            if like_count(likes.drop_last(), tweet_id) > 0 {
                let i = choose|i: int|
                    0 <= i < likes.drop_last().len() && likes.drop_last()[i].tweet_id == tweet_id;
                assert(likes[i].tweet_id == tweet_id);
            }
        }
    }
}

/// The whole state of the service: four relations. Counts and flags are
/// always derived from these at read time.
pub struct Store {
    pub users: Vec<User>,
    pub tweets: Vec<Tweet>,
    pub likes: Vec<Like>,
    pub follows: Vec<Follow>,
}

impl Store {
    /// The store's invariant: identifiers, usernames and emails are
    /// unique; every item, like and follow edge references existing
    /// parents; no duplicate likes or edges; no self-follow; every
    /// item's body is 1 to 280 characters and its stored labels are
    /// exactly the hashtags of its body.
    pub open spec fn wf(&self) -> bool {
        &&& forall|i: int, j: int|
            0 <= i < j < self.users@.len() ==> self.users@[i].id != self.users@[j].id
                && self.users@[i].username@ != self.users@[j].username@ && self.users@[i].email@
                != self.users@[j].email@
        &&& forall|i: int|
            0 <= i < self.users@.len() ==> bcrypt_credential(
                (#[trigger] self.users@[i]).password_hash@,
            )
        &&& forall|i: int, j: int|
            0 <= i < j < self.tweets@.len() ==> self.tweets@[i].id != self.tweets@[j].id
        &&& forall|i: int|
            0 <= i < self.tweets@.len() ==> user_id_taken(
                self.users@,
                #[trigger] self.tweets@[i].user_id,
            )
        &&& forall|i: int|
            0 <= i < self.tweets@.len() ==> 1 <= (#[trigger] self.tweets@[i]).content@.len() <= 280
                && self.tweets@[i].hashtags.deep_view() == spec_hashtags(self.tweets@[i].content@)
        &&& forall|i: int, j: int|
            0 <= i < j < self.likes@.len() ==> !(self.likes@[i].user_id == self.likes@[j].user_id
                && self.likes@[i].tweet_id == self.likes@[j].tweet_id)
        &&& forall|i: int|
            0 <= i < self.likes@.len() ==> user_id_taken(
                self.users@,
                (#[trigger] self.likes@[i]).user_id,
            ) && tweet_id_taken(self.tweets@, self.likes@[i].tweet_id)
        &&& forall|i: int, j: int|
            0 <= i < j < self.follows@.len() ==> !(self.follows@[i].follower_id
                == self.follows@[j].follower_id && self.follows@[i].followee_id
                == self.follows@[j].followee_id)
        &&& forall|i: int|
            0 <= i < self.follows@.len() ==> (#[trigger] self.follows@[i]).follower_id
                != self.follows@[i].followee_id && user_id_taken(
                self.users@,
                self.follows@[i].follower_id,
            ) && user_id_taken(self.users@, self.follows@[i].followee_id)
    }

    /// An empty store.
    pub fn new() -> (r: Store)
        ensures
            r.wf(),
            r.users@.len() == 0,
            r.tweets@.len() == 0,
            r.likes@.len() == 0,
            r.follows@.len() == 0,
    {
        Store { users: Vec::new(), tweets: Vec::new(), likes: Vec::new(), follows: Vec::new() }
    }

    /// The index of the user carrying `email`, if any.
    pub(crate) fn find_user_by_email(&self, email: &str) -> (r: Option<usize>)
        ensures
            match r {
                Some(k) => k < self.users@.len() && self.users@[k as int].email@ == email@,
                None => !email_taken(self.users@, email@),
            },
    {
        let needle = email.to_owned();
        let n = self.users.len();
        let mut k: usize = 0;
        while k < n
            invariant
                needle@ == email@,
                n == self.users@.len(),
                0 <= k <= n,
                forall|m: int| 0 <= m < k ==> self.users@[m].email@ != email@,
            decreases n - k,
        {
            if self.users[k].email == needle {
                return Some(k);
            }
            k += 1;
        }
        None
    }

    /// The index of the user carrying `username`, if any.
    pub(crate) fn find_user_by_username(&self, username: &str) -> (r: Option<usize>)
        ensures
            match r {
                Some(k) => k < self.users@.len() && self.users@[k as int].username@ == username@,
                None => !username_taken(self.users@, username@),
            },
    {
        let needle = username.to_owned();
        let n = self.users.len();
        let mut k: usize = 0;
        while k < n
            invariant
                needle@ == username@,
                n == self.users@.len(),
                0 <= k <= n,
                forall|m: int| 0 <= m < k ==> self.users@[m].username@ != username@,
            decreases n - k,
        {
            if self.users[k].username == needle {
                return Some(k);
            }
            k += 1;
        }
        None
    }

    /// The index of the user carrying `id`, if any.
    pub(crate) fn find_user_by_id(&self, id: u128) -> (r: Option<usize>)
        ensures
            match r {
                Some(k) => k < self.users@.len() && self.users@[k as int].id == id,
                None => !user_id_taken(self.users@, id),
            },
    {
        let n = self.users.len();
        let mut k: usize = 0;
        while k < n
            invariant
                n == self.users@.len(),
                0 <= k <= n,
                forall|m: int| 0 <= m < k ==> self.users@[m].id != id,
            decreases n - k,
        {
            if self.users[k].id == id {
                return Some(k);
            }
            k += 1;
        }
        None
    }

    /// The index of the content item carrying `id`, if any.
    pub(crate) fn find_tweet_by_id(&self, id: u128) -> (r: Option<usize>)
        ensures
            match r {
                Some(k) => k < self.tweets@.len() && self.tweets@[k as int].id == id,
                None => !tweet_id_taken(self.tweets@, id),
            },
    {
        let n = self.tweets.len();
        let mut k: usize = 0;
        while k < n
            invariant
                n == self.tweets@.len(),
                0 <= k <= n,
                forall|m: int| 0 <= m < k ==> self.tweets@[m].id != id,
            decreases n - k,
        {
            if self.tweets[k].id == id {
                return Some(k);
            }
            k += 1;
        }
        None
    }

    /// The index of the like of `tweet_id` by `user_id`, if any.
    pub(crate) fn find_like(&self, user_id: u128, tweet_id: u128) -> (r: Option<usize>)
        ensures
            match r {
                Some(k) => k < self.likes@.len() && self.likes@[k as int].user_id == user_id
                    && self.likes@[k as int].tweet_id == tweet_id,
                None => !likes_contain(self.likes@, user_id, tweet_id),
            },
    {
        let n = self.likes.len();
        let mut k: usize = 0;
        while k < n
            invariant
                n == self.likes@.len(),
                0 <= k <= n,
                forall|m: int|
                    0 <= m < k ==> !(self.likes@[m].user_id == user_id && self.likes@[m].tweet_id
                        == tweet_id),
            decreases n - k,
        {
            if self.likes[k].user_id == user_id && self.likes[k].tweet_id == tweet_id {
                return Some(k);
            }
            k += 1;
        }
        None
    }

    /// The index of the follow edge from `follower_id` to `followee_id`,
    /// if any.
    pub(crate) fn find_follow(&self, follower_id: u128, followee_id: u128) -> (r: Option<usize>)
        ensures
            match r {
                Some(k) => k < self.follows@.len() && self.follows@[k as int].follower_id
                    == follower_id && self.follows@[k as int].followee_id == followee_id,
                None => !follows_contain(self.follows@, follower_id, followee_id),
            },
    {
        let n = self.follows.len();
        let mut k: usize = 0;
        while k < n
            invariant
                n == self.follows@.len(),
                0 <= k <= n,
                forall|m: int|
                    0 <= m < k ==> !(self.follows@[m].follower_id == follower_id
                        && self.follows@[m].followee_id == followee_id),
            decreases n - k,
        {
            if self.follows[k].follower_id == follower_id && self.follows[k].followee_id
                == followee_id {
                return Some(k);
            }
            k += 1;
        }
        None
    }

    /// How many likes reference `tweet_id`.
    pub(crate) fn count_likes(&self, tweet_id: u128) -> (r: u64)
        ensures
            r == like_count(self.likes@, tweet_id),
    {
        let n = self.likes.len();
        let mut count: u64 = 0;
        let mut k: usize = 0;
        while k < n
            invariant
                n == self.likes@.len(),
                0 <= k <= n,
                count == like_count(self.likes@.take(k as int), tweet_id),
                count <= k,
            decreases n - k,
        {
            proof {
                assert(self.likes@.take(k + 1 as int).drop_last() =~= self.likes@.take(k as int));
                assert(self.likes@.take(k + 1 as int).last() == self.likes@[k as int]);
            }
            if self.likes[k].tweet_id == tweet_id {
                count += 1;
            }
            k += 1;
        }
        proof {
            assert(self.likes@.take(n as int) =~= self.likes@);
        }
        count
    }

    /// Register a new account: reject a duplicate email or username,
    /// hash the password, persist the user and issue a session token.
    pub fn register(&mut self, req: &RegisterRequest, secret: &str) -> (r: Result<
        AuthResponse,
        AppError,
    >)
        requires
            old(self).wf(),
        ensures
            final(self).wf(),
            (email_taken(old(self).users@, req.email@) || username_taken(
                old(self).users@,
                req.username@,
            )) <==> r == Err::<AuthResponse, AppError>(AppError::Conflict),
            r is Err ==> *final(self) == *old(self) && (r matches Err(e) ==> e == AppError::Conflict
                || e == AppError::Internal),
            r matches Ok(a) ==> {
                &&& final(self).users@.len() == old(self).users@.len() + 1
                &&& final(self).users@.drop_last() == old(self).users@
                &&& final(self).users@.last().id == a.user.id
                &&& !user_id_taken(old(self).users@, a.user.id)
                &&& final(self).users@.last().username@ == req.username@
                &&& final(self).users@.last().email@ == req.email@
                &&& a.user.username@ == req.username@
                &&& a.user.email@ == req.email@
                &&& bcrypt_matches(req.password@, final(self).users@.last().password_hash@)
                &&& token_claims(a.token@, secret@) == Some(
                    (a.user.id, (final(self).users@.last().created_at + TOKEN_LIFETIME_SECONDS) as u64),
                )
                &&& final(self).tweets@ == old(self).tweets@
                &&& final(self).likes@ == old(self).likes@
                &&& final(self).follows@ == old(self).follows@
            },
    {
        if self.find_user_by_email(req.email.as_str()).is_some() {
            return Err(AppError::Conflict);
        }
        if self.find_user_by_username(req.username.as_str()).is_some() {
            return Err(AppError::Conflict);
        }
        let password_hash = hash_password(req.password.as_str())?;
        let id = new_id();
        if self.find_user_by_id(id).is_some() {
            // A collision of freshly drawn identifiers: catastrophic,
            // not user-correctable.
            return Err(AppError::Internal);
        }
        let now = now_ts();
        if now > u64::MAX - TOKEN_LIFETIME_SECONDS {
            return Err(AppError::Internal);
        }
        let token = issue_token_at(id, now, secret)?;
        let user = User {
            id,
            username: req.username.clone(),
            email: req.email.clone(),
            password_hash,
            created_at: now,
        };
        let response = AuthResponse {
            token,
            user: UserResponse { id, username: req.username.clone(), email: req.email.clone() },
        };
        self.users.push(user);
        proof {
            assert(self.users@.drop_last() =~= old(self).users@);
            assert forall|i: int|
                0 <= i < self.users@.len() implies bcrypt_credential(
                (#[trigger] self.users@[i]).password_hash@,
            ) by {
                if i < old(self).users@.len() {
                    assert(self.users@[i] == old(self).users@[i]);
                }
            }
            assert forall|i: int|
                0 <= i < self.tweets@.len() implies user_id_taken(
                self.users@,
                #[trigger] self.tweets@[i].user_id,
            ) by {
                let w = choose|w: int|
                    0 <= w < old(self).users@.len() && old(self).users@[w].id
                        == self.tweets@[i].user_id;
                assert(self.users@[w].id == self.tweets@[i].user_id);
            }
            assert forall|i: int|
                0 <= i < self.likes@.len() implies user_id_taken(
                self.users@,
                (#[trigger] self.likes@[i]).user_id,
            ) by {
                let w = choose|w: int|
                    0 <= w < old(self).users@.len() && old(self).users@[w].id
                        == self.likes@[i].user_id;
                assert(self.users@[w].id == self.likes@[i].user_id);
            }
            assert forall|i: int|
                0 <= i < self.follows@.len() implies user_id_taken(
                self.users@,
                (#[trigger] self.follows@[i]).follower_id,
            ) && user_id_taken(self.users@, self.follows@[i].followee_id) by {
                let w1 = choose|w: int|
                    0 <= w < old(self).users@.len() && old(self).users@[w].id
                        == self.follows@[i].follower_id;
                assert(self.users@[w1].id == self.follows@[i].follower_id);
                let w2 = choose|w: int|
                    0 <= w < old(self).users@.len() && old(self).users@[w].id
                        == self.follows@[i].followee_id;
                assert(self.users@[w2].id == self.follows@[i].followee_id);
            }
        }
        Ok(response)
    }

    /// Log an account in: look the email up, check the password against
    /// the stored credential and issue a session token. An unknown email
    /// and a wrong password are indistinguishable to the caller; a
    /// credential check runs either way, against a fixed dummy
    /// credential when no account matched, so that the two paths do
    /// comparable work.
    pub fn login(&self, req: &LoginRequest, secret: &str) -> (r: Result<
        AuthResponse,
        AppError,
    >)
        requires
            self.wf(),
        ensures
            r matches Err(e) ==> e == AppError::Unauthorized || e == AppError::Internal,
            r == Err::<AuthResponse, AppError>(AppError::Unauthorized) <==> (!email_taken(
                self.users@,
                req.email@,
            ) || exists|i: int|
                0 <= i < self.users@.len() && (#[trigger] self.users@[i]).email@ == req.email@
                    && !bcrypt_matches(req.password@, self.users@[i].password_hash@)),
            r matches Ok(a) ==> exists|i: int|
                {
                    &&& 0 <= i < self.users@.len()
                    &&& (#[trigger] self.users@[i]).email@ == req.email@
                    &&& a.user.id == self.users@[i].id
                    &&& a.user.username@ == self.users@[i].username@
                    &&& a.user.email@ == self.users@[i].email@
                    &&& bcrypt_matches(req.password@, self.users@[i].password_hash@)
                    &&& exists|e: u64| token_claims(a.token@, secret@) == Some((self.users@[i].id, e))
                },
    {
        let user_index = self.find_user_by_email(req.email.as_str());
        match user_index {
            None => {
                // Do the same hashing work as a real credential check,
                // against a fixed well-formed credential, and discard
                // the outcome: no timing side channel reveals whether
                // the email is registered.
                let _ = verify_password(req.password.as_str(), DUMMY_CREDENTIAL);
                Err(AppError::Unauthorized)
            },
            Some(k) => {
                proof {
                    assert forall|j: int|
                        0 <= j < self.users@.len() && (#[trigger] self.users@[j]).email@
                            == req.email@ implies j == k by {
                        if j < k {
                            assert(self.users@[j].email@ != self.users@[k as int].email@);
                        } else if j > k {
                            assert(self.users@[k as int].email@ != self.users@[j].email@);
                        }
                    }
                    assert(bcrypt_credential(self.users@[k as int].password_hash@));
                }
                let matched = verify_password(
                    req.password.as_str(),
                    self.users[k].password_hash.as_str(),
                )?;
                if !matched {
                    return Err(AppError::Unauthorized);
                }
                let now = now_ts();
                if now > u64::MAX - TOKEN_LIFETIME_SECONDS {
                    return Err(AppError::Internal);
                }
                let token = issue_token_at(self.users[k].id, now, secret)?;
                Ok(
                    AuthResponse {
                        token,
                        user: UserResponse {
                            id: self.users[k].id,
                            username: self.users[k].username.clone(),
                            email: self.users[k].email.clone(),
                        },
                    },
                )
            },
        }
    }

    /// The public face of the account carrying `viewer`, if it exists:
    /// the authenticated user's own profile lookup.
    pub fn me(&self, viewer: u128) -> (r: Option<UserResponse>)
        requires
            self.wf(),
        ensures
            match r {
                Some(u) => exists|i: int|
                    {
                        &&& 0 <= i < self.users@.len()
                        &&& (#[trigger] self.users@[i]).id == viewer
                        &&& u.id == viewer
                        &&& u.username@ == self.users@[i].username@
                        &&& u.email@ == self.users@[i].email@
                    },
                None => !user_id_taken(self.users@, viewer),
            },
    {
        match self.find_user_by_id(viewer) {
            None => None,
            Some(k) => Some(
                UserResponse {
                    id: self.users[k].id,
                    username: self.users[k].username.clone(),
                    email: self.users[k].email.clone(),
                },
            ),
        }
    }
}

/// A well-formed bcrypt credential matching no password anyone would
/// submit; the login path checks against it when no account matched, so
/// that both paths hash.
pub const DUMMY_CREDENTIAL: &'static str = "$2y$12$L6Bc/AlTQHyd9liGgGEZyOFLPHNgyxeEPfgYfBCVxJ7JIlwxyVU3u";

} // verus!
