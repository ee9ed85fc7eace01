//! Publishing behavior: batch selection and conditional outcome recording.

use irctweets::ingest::record_message;
use irctweets::publish::record_outcome;
use irctweets::store::Store;

fn store_with_pending(ids: &[u64]) -> Store {
    let mut store = Store::new();
    for id in ids {
        store.maybe_insert_tweet(*id);
    }
    store
}

#[test]
fn mixed_outcomes_then_empty_batch() {
    let mut store = store_with_pending(&[10, 20, 30]);
    let batch = store.get_new_tweets(100);
    assert_eq!(batch, vec![10, 20, 30]);
    record_outcome(&mut store, 10, Ok(910));
    record_outcome(&mut store, 20, Err(String::from("rate limited")));
    record_outcome(&mut store, 30, Ok(930));
    assert_eq!(store.tweets[0].retweet_id, Some(910));
    assert_eq!(store.tweets[0].error, None);
    assert_eq!(store.tweets[1].retweet_id, None);
    assert_eq!(store.tweets[1].error, Some(String::from("rate limited")));
    assert_eq!(store.tweets[2].retweet_id, Some(930));
    assert_eq!(store.tweets[2].error, None);
    let next = store.get_new_tweets(100);
    assert_eq!(next, Vec::<u64>::new());
}

#[test]
fn success_leaves_the_pending_set() {
    let mut store = store_with_pending(&[5, 6]);
    record_outcome(&mut store, 5, Ok(905));
    let batch = store.get_new_tweets(100);
    assert_eq!(batch, vec![6]);
}

#[test]
fn error_is_permanent() {
    let mut store = store_with_pending(&[5]);
    record_outcome(&mut store, 5, Err(String::from("not found")));
    assert_eq!(store.get_new_tweets(100), Vec::<u64>::new());
    // A later success must not overwrite the recorded error.
    record_outcome(&mut store, 5, Ok(905));
    assert_eq!(store.tweets[0].retweet_id, None);
    assert_eq!(store.tweets[0].error, Some(String::from("not found")));
}

#[test]
fn resolution_is_write_once() {
    let mut store = store_with_pending(&[5]);
    store.store_retweet_id(5, 100);
    store.store_retweet_id(5, 200);
    assert_eq!(store.tweets[0].retweet_id, Some(100));
    store.store_error(5, String::from("late failure"));
    assert_eq!(store.tweets[0].error, None);
}

#[test]
fn batch_respects_the_limit() {
    let store = store_with_pending(&[1, 2, 3]);
    assert_eq!(store.get_new_tweets(2), vec![1, 2]);
    assert_eq!(store.get_new_tweets(0), Vec::<u64>::new());
}

#[test]
fn batch_skips_resolved_and_errored_posts() {
    let mut store = store_with_pending(&[1, 2, 3, 4]);
    record_outcome(&mut store, 2, Ok(902));
    record_outcome(&mut store, 3, Err(String::from("gone")));
    assert_eq!(store.get_new_tweets(100), vec![1, 4]);
}

#[test]
fn outcome_for_unknown_id_changes_nothing() {
    let mut store = store_with_pending(&[1]);
    record_outcome(&mut store, 99, Ok(900));
    assert_eq!(store.tweets.len(), 1);
    assert_eq!(store.tweets[0].retweet_id, None);
    assert_eq!(store.tweets[0].error, None);
}

#[test]
fn recorded_posts_flow_into_batches() {
    let mut store = Store::new();
    record_message(
        &mut store,
        1,
        "alice!u@host",
        "#chan",
        "https://twitter.com/a/status/77",
    );
    assert_eq!(store.get_new_tweets(100), vec![77]);
}
