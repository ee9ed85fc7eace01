//! Link extraction behavior on concrete texts.

use irctweets::extract::{extract, get_tweet};

#[test]
fn extract_basic_secure_link() {
    let ids = extract("check this https://twitter.com/alice/status/12345 out");
    assert_eq!(ids, vec![12345]);
}

#[test]
fn extract_rejects_insecure_scheme() {
    let ids = extract("see http://twitter.com/alice/status/12345 please");
    assert_eq!(ids, Vec::<u64>::new());
}

#[test]
fn extract_rejects_unknown_host() {
    let ids = extract("https://example.com/alice/status/12345");
    assert_eq!(ids, Vec::<u64>::new());
}

#[test]
fn extract_accepts_all_allowed_hosts() {
    assert_eq!(extract("https://twitter.com/a/status/1"), vec![1]);
    assert_eq!(extract("https://www.twitter.com/b/status/2"), vec![2]);
    assert_eq!(extract("https://mobile.twitter.com/c/status/3"), vec![3]);
    assert_eq!(extract("https://m.twitter.com/d/status/4"), vec![4]);
}

#[test]
fn extract_rejects_wrong_path_shapes() {
    assert_eq!(extract("https://twitter.com/alice/12345"), Vec::<u64>::new());
    assert_eq!(extract("https://twitter.com/alice/status/notanumber"), Vec::<u64>::new());
    assert_eq!(extract("https://twitter.com/status/12345"), Vec::<u64>::new());
    assert_eq!(extract("https://twitter.com/alice/status/12345/photo"), Vec::<u64>::new());
}

#[test]
fn extract_keeps_order_and_duplicates() {
    let ids = extract(
        "https://twitter.com/a/status/7 then https://twitter.com/b/status/5 and again https://twitter.com/c/status/7",
    );
    assert_eq!(ids, vec![7, 5, 7]);
}

#[test]
fn extract_plain_text_yields_nothing() {
    assert_eq!(extract("hello world, no links here"), Vec::<u64>::new());
    assert_eq!(extract(""), Vec::<u64>::new());
}

#[test]
fn extract_rejects_oversized_id() {
    // One digit past u64::MAX.
    let ids = extract("https://twitter.com/a/status/18446744073709551616");
    assert_eq!(ids, Vec::<u64>::new());
    // Exactly u64::MAX still fits.
    let ids = extract("https://twitter.com/a/status/18446744073709551615");
    assert_eq!(ids, vec![u64::MAX]);
}

#[test]
fn get_tweet_on_single_urls() {
    assert_eq!(get_tweet("https://twitter.com/alice/status/42"), Some(42));
    assert_eq!(get_tweet("https://twitter.com/alice/status/042"), Some(42));
    assert_eq!(get_tweet("not a url at all"), None);
    assert_eq!(get_tweet("https://twitter.com/alice/status/"), None);
    assert_eq!(get_tweet("https://twitter.com/alice/status/-42"), None);
}
