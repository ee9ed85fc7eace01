//! Publishing: selects a bounded batch of posts that are still pending,
//! and records each republish outcome with a conditional write that fires
//! only while the post is pending — the mechanism that makes retries safe
//! and keeps errored posts out of every later batch.

use vstd::prelude::*;
use crate::store::{PostModel, PostRow, Store, StoreModel};

verus! {

/// Whether a post still awaits publishing: no resolution and no error.
pub open spec fn pending(p: PostModel) -> bool {
    p.retweet_id is None && p.error is None
}

/// The external ids of the pending posts, in table order.
pub open spec fn pending_ids(tweets: Seq<PostModel>) -> Seq<u64>
    decreases tweets.len(),
{
    if tweets.len() == 0 {
        Seq::empty()
    } else {
        pending_ids(tweets.drop_last()) + (if pending(tweets.last()) {
            seq![tweets.last().tweet_id]
        } else {
            Seq::empty()
        })
    }
}

/// The first `n` elements of `s`, or all of `s` when it is shorter.
pub open spec fn take_up_to(s: Seq<u64>, n: int) -> Seq<u64> {
    if n < 0 {
        Seq::empty()
    } else if s.len() <= n {
        s
    } else {
        s.take(n)
    }
}

/// One row after a successful republish of `tweet_id` is recorded: the
/// resolution is written only while the row is still pending.
pub open spec fn resolve_row(p: PostModel, tweet_id: u64, retweet_id: u64) -> PostModel {
    if p.tweet_id == tweet_id && pending(p) {
        PostModel { tweet_id: p.tweet_id, retweet_id: Some(retweet_id), error: p.error }
    } else {
        p
    }
}

/// One row after a failed republish of `tweet_id` is recorded: the error is
/// written only while the row is still pending.
pub open spec fn error_row(p: PostModel, tweet_id: u64, error: Seq<char>) -> PostModel {
    if p.tweet_id == tweet_id && pending(p) {
        PostModel { tweet_id: p.tweet_id, retweet_id: p.retweet_id, error: Some(error) }
    } else {
        p
    }
}

/// The post table after a success is recorded for `tweet_id`.
pub open spec fn set_retweet(tweets: Seq<PostModel>, tweet_id: u64, retweet_id: u64) -> Seq<
    PostModel,
> {
    tweets.map_values(|p: PostModel| resolve_row(p, tweet_id, retweet_id))
}

/// The post table after a failure is recorded for `tweet_id`.
pub open spec fn set_error(tweets: Seq<PostModel>, tweet_id: u64, error: Seq<char>) -> Seq<
    PostModel,
> {
    tweets.map_values(|p: PostModel| error_row(p, tweet_id, error))
}

proof fn lemma_pending_prefix(tweets: Seq<PostModel>, i: int)
    requires
        0 <= i <= tweets.len(),
    ensures
        pending_ids(tweets.take(i)).len() <= pending_ids(tweets).len(),
        pending_ids(tweets.take(i)) == pending_ids(tweets).take(
            pending_ids(tweets.take(i)).len() as int,
        ),
    decreases tweets.len() - i,
{
    if i == tweets.len() {
        assert(tweets.take(i) =~= tweets);
        assert(pending_ids(tweets).take(pending_ids(tweets).len() as int) =~= pending_ids(
            tweets,
        ));
    } else {
        lemma_pending_prefix(tweets, i + 1);
        assert(tweets.take(i + 1).drop_last() =~= tweets.take(i));
        assert(tweets.take(i + 1).last() == tweets[i]);
        let p = pending_ids(tweets.take(i));
        let p1 = pending_ids(tweets.take(i + 1));
        let q = pending_ids(tweets);
        assert(p.len() <= p1.len());
        assert(p =~= q.take(p.len() as int));
    }
}

proof fn lemma_pending_excludes(tweets: Seq<PostModel>, tweet_id: u64)
    requires
        forall|i: int|
            0 <= i < tweets.len() ==> !((#[trigger] tweets[i]).tweet_id == tweet_id && pending(
                tweets[i],
            )),
    ensures
        !pending_ids(tweets).contains(tweet_id),
    decreases tweets.len(),
{
    if tweets.len() > 0 {
        assert(forall|i: int|
            0 <= i < tweets.drop_last().len() ==> #[trigger] tweets.drop_last()[i] == tweets[i]);
        lemma_pending_excludes(tweets.drop_last(), tweet_id);
        if pending_ids(tweets).contains(tweet_id) {
            let k = choose|k: int|
                0 <= k < pending_ids(tweets).len() && pending_ids(tweets)[k] == tweet_id;
            if k < pending_ids(tweets.drop_last()).len() {
                assert(pending_ids(tweets.drop_last()).contains(tweet_id));
            } else {
                assert(pending(tweets.last()) && tweets.last().tweet_id == tweet_id);
            }
        }
    }
}

proof fn lemma_excluded_from_batches(s: Seq<u64>, x: u64)
    requires
        !s.contains(x),
    ensures
        forall|n: int| !(#[trigger] take_up_to(s, n)).contains(x),
{
    assert forall|n: int| !(#[trigger] take_up_to(s, n)).contains(x) by {
        if take_up_to(s, n).contains(x) {
            let k = choose|k: int|
                0 <= k < take_up_to(s, n).len() && take_up_to(s, n)[k] == x;
            assert(s[k] == x);
        }
    }
}

/// Once a successful republish is recorded for a post, its id has left the
/// pending set: no later batch, of any size, selects it again.
pub proof fn lemma_resolved_leaves_pending(tweets: Seq<PostModel>, tweet_id: u64, retweet_id: u64)
    ensures
        !pending_ids(set_retweet(tweets, tweet_id, retweet_id)).contains(tweet_id),
        forall|n: int|
            !(#[trigger] take_up_to(
                pending_ids(set_retweet(tweets, tweet_id, retweet_id)),
                n,
            )).contains(tweet_id),
{
    let rows = set_retweet(tweets, tweet_id, retweet_id);
    assert(forall|i: int|
        0 <= i < rows.len() ==> !((#[trigger] rows[i]).tweet_id == tweet_id && pending(rows[i])));
    lemma_pending_excludes(rows, tweet_id);
    lemma_excluded_from_batches(pending_ids(rows), tweet_id);
}

/// Once a failed republish is recorded for a post, its id has left the
/// pending set permanently: no later batch, of any size, selects it again.
pub proof fn lemma_errored_leaves_pending(tweets: Seq<PostModel>, tweet_id: u64, error: Seq<char>)
    ensures
        !pending_ids(set_error(tweets, tweet_id, error)).contains(tweet_id),
        forall|n: int|
            !(#[trigger] take_up_to(pending_ids(set_error(tweets, tweet_id, error)), n)).contains(
                tweet_id,
            ),
{
    let rows = set_error(tweets, tweet_id, error);
    assert(forall|i: int|
        0 <= i < rows.len() ==> !((#[trigger] rows[i]).tweet_id == tweet_id && pending(rows[i])));
    lemma_pending_excludes(rows, tweet_id);
    lemma_excluded_from_batches(pending_ids(rows), tweet_id);
}

impl Store {
    /// Selects up to `limit` posts that are neither resolved nor errored, in
    /// table order: the batch one publishing cycle works through.
    #[verifier::loop_isolation(false)]
    pub fn get_new_tweets(&self, limit: usize) -> (r: Vec<u64>)
        ensures
            r@ == take_up_to(pending_ids(self@.tweets), limit as int),
    {
        let n = self.tweets.len();
        let mut r: Vec<u64> = Vec::new();
        let mut i: usize = 0;
        while i < n && r.len() < limit
            invariant
                0 <= i <= n,
                n == self.tweets.len(),
                r@ == pending_ids(self@.tweets.take(i as int)),
                r@.len() <= limit,
            decreases n - i,
        {
            proof {
                assert(self@.tweets.take(i + 1).drop_last() =~= self@.tweets.take(i as int));
                assert(self@.tweets.take(i + 1).last() == self@.tweets[i as int]);
            }
            if self.tweets[i].retweet_id.is_none() && self.tweets[i].error.is_none() {
                r.push(self.tweets[i].tweet_id);
                assert(r@ =~= pending_ids(self@.tweets.take(i + 1)));
            } else {
                assert(r@ =~= pending_ids(self@.tweets.take(i + 1)));
            }
            i = i + 1;
        }
        proof {
            if i == n {
                assert(self@.tweets.take(n as int) =~= self@.tweets);
                assert(r@ == take_up_to(pending_ids(self@.tweets), limit as int));
            } else {
                lemma_pending_prefix(self@.tweets, i as int);
                assert(r@ =~= take_up_to(pending_ids(self@.tweets), limit as int));
            }
        }
        r
    }

    /// Records the external id a successful republish returned, but only
    /// while the post is still pending: a post that is already resolved or
    /// errored is never overwritten.
    #[verifier::loop_isolation(false)]
    pub fn store_retweet_id(&mut self, tweet_id: u64, retweet_id: u64)
        requires
            old(self)@.wf(),
        ensures
            final(self)@.tweets == set_retweet(old(self)@.tweets, tweet_id, retweet_id),
            final(self)@.lines == old(self)@.lines,
            final(self)@.occurrences == old(self)@.occurrences,
            final(self)@.wf(),
    {
        let n = self.tweets.len();
        let mut i: usize = 0;
        while i < n
            invariant
                0 <= i <= n,
                self == old(self),
                n == self.tweets.len(),
                forall|j: int|
                    0 <= j < i ==> !((#[trigger] self@.tweets[j]).tweet_id == tweet_id && pending(
                        self@.tweets[j],
                    )),
            decreases n - i,
        {
            let hit = self.tweets[i].tweet_id == tweet_id && self.tweets[i].retweet_id.is_none()
                && self.tweets[i].error.is_none();
            if hit {
                let ghost old_model = self@;
                self.tweets[i] = PostRow {
                    tweet_id: tweet_id,
                    retweet_id: Some(retweet_id),
                    error: None,
                };
                proof {
                    assert(self@.tweets[i as int] == resolve_row(
                        old_model.tweets[i as int],
                        tweet_id,
                        retweet_id,
                    ));
                    assert(forall|j: int|
                        0 <= j < n && j != i ==> #[trigger] self@.tweets[j]
                            == old_model.tweets[j]);
                    assert(forall|j: int|
                        0 <= j < n && j != i ==> old_model.tweets[j].tweet_id != tweet_id);
                    assert(self@.tweets =~= set_retweet(old_model.tweets, tweet_id, retweet_id));
                    assert(self@.lines =~= old_model.lines);
                    assert(self@.occurrences =~= old_model.occurrences);
                }
                return ;
            }
            i = i + 1;
        }
        proof {
            assert(self@.tweets =~= set_retweet(self@.tweets, tweet_id, retweet_id));
        }
    }

    /// Records the textual description of a failed republish, under the same
    /// still-pending guard; the error is write-once and permanent.
    #[verifier::loop_isolation(false)]
    pub fn store_error(&mut self, tweet_id: u64, error: String)
        requires
            old(self)@.wf(),
        ensures
            final(self)@.tweets == set_error(old(self)@.tweets, tweet_id, error@),
            final(self)@.lines == old(self)@.lines,
            final(self)@.occurrences == old(self)@.occurrences,
            final(self)@.wf(),
    {
        let n = self.tweets.len();
        let mut i: usize = 0;
        while i < n
            invariant
                0 <= i <= n,
                self == old(self),
                n == self.tweets.len(),
                forall|j: int|
                    0 <= j < i ==> !((#[trigger] self@.tweets[j]).tweet_id == tweet_id && pending(
                        self@.tweets[j],
                    )),
            decreases n - i,
        {
            let hit = self.tweets[i].tweet_id == tweet_id && self.tweets[i].retweet_id.is_none()
                && self.tweets[i].error.is_none();
            if hit {
                let ghost old_model = self@;
                self.tweets[i] = PostRow { tweet_id: tweet_id, retweet_id: None, error: Some(
                    error,
                ) };
                proof {
                    assert(self@.tweets[i as int] == error_row(
                        old_model.tweets[i as int],
                        tweet_id,
                        error@,
                    ));
                    assert(forall|j: int|
                        0 <= j < n && j != i ==> #[trigger] self@.tweets[j]
                            == old_model.tweets[j]);
                    assert(forall|j: int|
                        0 <= j < n && j != i ==> old_model.tweets[j].tweet_id != tweet_id);
                    assert(self@.tweets =~= set_error(old_model.tweets, tweet_id, error@));
                    assert(self@.lines =~= old_model.lines);
                    assert(self@.occurrences =~= old_model.occurrences);
                }
                return ;
            }
            i = i + 1;
        }
        proof {
            assert(self@.tweets =~= set_error(self@.tweets, tweet_id, error@));
        }
    }
}

/// Records one republish outcome: a success stores the returned resolution
/// id, a failure stores the error text, each under the still-pending guard.
pub fn record_outcome(store: &mut Store, tweet_id: u64, outcome: Result<u64, String>)
    requires
        old(store)@.wf(),
    ensures
        final(store)@.lines == old(store)@.lines,
        final(store)@.occurrences == old(store)@.occurrences,
        final(store)@.wf(),
        (match outcome {
            Ok(retweet_id) => final(store)@.tweets == set_retweet(
                old(store)@.tweets,
                tweet_id,
                retweet_id,
            ),
            Err(e) => final(store)@.tweets == set_error(old(store)@.tweets, tweet_id, e@),
        }),
{
    match outcome {
        Ok(retweet_id) => store.store_retweet_id(tweet_id, retweet_id),
        Err(e) => store.store_error(tweet_id, e),
    }
}

} // verus!
