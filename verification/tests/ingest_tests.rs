//! Ingestion behavior: deduplicated recording against the store.

use irctweets::ingest::record_message;
use irctweets::store::Store;

#[test]
fn same_message_twice_records_one_of_each() {
    let mut store = Store::new();
    let msg = "look https://twitter.com/alice/status/12345";
    record_message(&mut store, 100, "alice!u@host", "#chan", msg);
    record_message(&mut store, 200, "alice!u@host", "#chan", msg);
    assert_eq!(store.lines.len(), 1);
    assert_eq!(store.tweets.len(), 1);
    assert_eq!(store.occurrences.len(), 1);
    assert_eq!(store.tweets[0].tweet_id, 12345);
    // The first recording's timestamp is kept.
    assert_eq!(store.lines[0].timestamp, 100);
}

#[test]
fn two_events_reuse_one_post_row() {
    let mut store = Store::new();
    record_message(
        &mut store,
        1,
        "alice!u@host",
        "#chan",
        "https://twitter.com/alice/status/99",
    );
    record_message(
        &mut store,
        2,
        "bob!u@host",
        "#chan",
        "again https://twitter.com/alice/status/99",
    );
    assert_eq!(store.lines.len(), 2);
    assert_eq!(store.tweets.len(), 1);
    assert_eq!(store.occurrences.len(), 2);
}

#[test]
fn private_message_is_not_recorded() {
    let mut store = Store::new();
    record_message(
        &mut store,
        1,
        "alice!u@host",
        "bot",
        "https://twitter.com/alice/status/99",
    );
    assert_eq!(store.lines.len(), 0);
    assert_eq!(store.tweets.len(), 0);
    assert_eq!(store.occurrences.len(), 0);
}

#[test]
fn message_without_links_writes_nothing() {
    let mut store = Store::new();
    record_message(&mut store, 1, "alice!u@host", "#chan", "just chatting");
    assert_eq!(store.lines.len(), 0);
    assert_eq!(store.tweets.len(), 0);
    assert_eq!(store.occurrences.len(), 0);
}

#[test]
fn one_message_with_several_links_makes_one_line() {
    let mut store = Store::new();
    record_message(
        &mut store,
        1,
        "alice!u@host",
        "#chan",
        "https://twitter.com/a/status/1 and https://twitter.com/b/status/2",
    );
    assert_eq!(store.lines.len(), 1);
    assert_eq!(store.tweets.len(), 2);
    assert_eq!(store.occurrences.len(), 2);
    assert_eq!(store.tweets[0].tweet_id, 1);
    assert_eq!(store.tweets[1].tweet_id, 2);
}

#[test]
fn direct_store_upserts_are_idempotent() {
    let mut store = Store::new();
    let t1 = store.maybe_insert_tweet(7);
    let t2 = store.maybe_insert_tweet(7);
    assert_eq!(t1, t2);
    assert_eq!(store.tweets.len(), 1);
    let line = store.maybe_insert_line(1, "p", "#c", "m");
    store.maybe_insert_occurence(t1, line);
    store.maybe_insert_occurence(t1, line);
    assert_eq!(store.occurrences.len(), 1);
}
