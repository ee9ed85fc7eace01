//! Ingestion: turns one inbound chat event into store rows. A line row is
//! created lazily and at most once per distinct event; each extracted id is
//! recorded by reusing or creating its post row and linking it to the line.
//! Recording is idempotent: replaying an event changes nothing.

use vstd::prelude::*;
use vstd::string::StrSliceExecFns;
use crate::extract::{extract, extract_spec};
use crate::store::{
    find_line, find_post, has_occ, lemma_find_line_char, lemma_find_line_push,
    lemma_find_post_char, lemma_find_post_push, new_post, upsert_line_index, upsert_line_rows,
    upsert_occ_rows, upsert_post_index, upsert_post_rows, LineModel, PostModel, Store, StoreModel,
};

verus! {

/// Whether a destination names a channel rather than a private conversation.
pub open spec fn is_channel(target: Seq<char>) -> bool {
    target.len() > 0 && target[0] == '#'
}

/// The store after one extracted id is recorded against the event's line:
/// the post is reused or created, then linked to the line unless the pair
/// already exists.
pub open spec fn record_one(s: StoreModel, line: int, id: u64) -> StoreModel {
    StoreModel {
        lines: s.lines,
        tweets: upsert_post_rows(s.tweets, id),
        occurrences: upsert_occ_rows(s.occurrences, upsert_post_index(s.tweets, id), line),
    }
}

/// The store after a list of extracted ids is recorded, in order.
pub open spec fn record_list(s: StoreModel, line: int, ids: Seq<u64>) -> StoreModel
    decreases ids.len(),
{
    if ids.len() == 0 {
        s
    } else {
        record_one(record_list(s, line, ids.drop_last()), line, ids.last())
    }
}

/// The store after one chat event is processed: events outside a channel,
/// and events whose text holds no recognized link, change nothing; any other
/// event records its line once and each extracted id against it.
pub open spec fn record_event_spec(
    s: StoreModel,
    timestamp: int,
    prefix: Seq<char>,
    target: Seq<char>,
    msg: Seq<char>,
) -> StoreModel {
    if !is_channel(target) {
        s
    } else {
        let ids = extract_spec(msg);
        if ids.len() == 0 {
            s
        } else {
            let s1 = StoreModel {
                lines: upsert_line_rows(s.lines, timestamp, prefix, target, msg),
                tweets: s.tweets,
                occurrences: s.occurrences,
            };
            record_list(s1, upsert_line_index(s.lines, prefix, target, msg), ids)
        }
    }
}

proof fn lemma_upsert_line(
    s: StoreModel,
    timestamp: int,
    prefix: Seq<char>,
    target: Seq<char>,
    msg: Seq<char>,
)
    requires
        s.wf(),
    ensures
        ({
            let rows = upsert_line_rows(s.lines, timestamp, prefix, target, msg);
            let idx = upsert_line_index(s.lines, prefix, target, msg);
            &&& StoreModel { lines: rows, tweets: s.tweets, occurrences: s.occurrences }.wf()
            &&& 0 <= idx < rows.len()
            &&& find_line(rows, prefix, target, msg) == Some(idx)
        }),
{
    let rows = upsert_line_rows(s.lines, timestamp, prefix, target, msg);
    lemma_find_line_char(s.lines, prefix, target, msg);
    match find_line(s.lines, prefix, target, msg) {
        Some(_) => {
        },
        None => {
            let l = LineModel { timestamp: timestamp, prefix: prefix, target: target, msg: msg };
            lemma_find_line_push(s.lines, l, prefix, target, msg);
            assert(forall|j: int| 0 <= j < s.lines.len() ==> #[trigger] rows[j] == s.lines[j]);
            assert(rows[s.lines.len() as int] == l);
        },
    }
}

proof fn lemma_record_one(s: StoreModel, line: int, id: u64)
    requires
        s.wf(),
        0 <= line < s.lines.len(),
    ensures
        ({
            let r = record_one(s, line, id);
            &&& r.wf()
            &&& r.lines == s.lines
            &&& forall|id2: u64|
                (#[trigger] find_post(s.tweets, id2)) is Some ==> find_post(r.tweets, id2)
                    == find_post(s.tweets, id2)
            &&& find_post(r.tweets, id) == Some(upsert_post_index(s.tweets, id))
            &&& forall|t: int, l: int|
                #[trigger] has_occ(s.occurrences, t, l) ==> has_occ(r.occurrences, t, l)
            &&& has_occ(r.occurrences, upsert_post_index(s.tweets, id), line)
        }),
{
    let r = record_one(s, line, id);
    let idx = upsert_post_index(s.tweets, id);
    lemma_find_post_char(s.tweets, id);
    match find_post(s.tweets, id) {
        Some(_) => {
            assert(forall|id2: u64|
                find_post(s.tweets, id2) is Some ==> #[trigger] find_post(r.tweets, id2)
                    == find_post(s.tweets, id2));
        },
        None => {
            let p = new_post(id);
            assert forall|id2: u64|
                (#[trigger] find_post(s.tweets, id2)) is Some implies find_post(r.tweets, id2)
                    == find_post(s.tweets, id2) by {
                lemma_find_post_push(s.tweets, p, id2);
            }
            lemma_find_post_push(s.tweets, p, id);
            assert(forall|j: int|
                0 <= j < s.tweets.len() ==> #[trigger] r.tweets[j] == s.tweets[j]);
            assert(r.tweets[s.tweets.len() as int] == p);
        },
    }
    assert(0 <= idx < r.tweets.len());
    if has_occ(s.occurrences, idx, line) {
        assert(r.occurrences == s.occurrences);
    } else {
        assert(forall|j: int|
            0 <= j < s.occurrences.len() ==> #[trigger] r.occurrences[j] == s.occurrences[j]);
        assert(r.occurrences[s.occurrences.len() as int].tweet == idx
            && r.occurrences[s.occurrences.len() as int].line == line);
        assert forall|t: int, l: int|
            #[trigger] has_occ(s.occurrences, t, l) implies has_occ(r.occurrences, t, l) by {
            let k = choose|k: int|
                0 <= k < s.occurrences.len() && s.occurrences[k].tweet == t
                    && s.occurrences[k].line == l;
            assert(r.occurrences[k].tweet == t && r.occurrences[k].line == l);
        }
    }
}

proof fn lemma_record_list(s: StoreModel, line: int, ids: Seq<u64>)
    requires
        s.wf(),
        0 <= line < s.lines.len(),
    ensures
        ({
            let r = record_list(s, line, ids);
            &&& r.wf()
            &&& r.lines == s.lines
            &&& forall|id2: u64|
                (#[trigger] find_post(s.tweets, id2)) is Some ==> find_post(r.tweets, id2)
                    == find_post(s.tweets, id2)
            &&& forall|t: int, l: int|
                #[trigger] has_occ(s.occurrences, t, l) ==> has_occ(r.occurrences, t, l)
            &&& forall|k: int|
                0 <= k < ids.len() ==> (find_post(r.tweets, #[trigger] ids[k]) matches Some(t)
                    && has_occ(r.occurrences, t, line))
        }),
    decreases ids.len(),
{
    if ids.len() > 0 {
        let prev = record_list(s, line, ids.drop_last());
        lemma_record_list(s, line, ids.drop_last());
        lemma_record_one(prev, line, ids.last());
        let r = record_list(s, line, ids);
        assert(r == record_one(prev, line, ids.last()));
        assert forall|k: int|
            0 <= k < ids.len() implies (find_post(r.tweets, #[trigger] ids[k]) matches Some(t)
            && has_occ(r.occurrences, t, line)) by {
            if k < ids.len() - 1 {
                assert(ids.drop_last()[k] == ids[k]);
                assert(find_post(prev.tweets, ids[k]) matches Some(t) && has_occ(
                    prev.occurrences,
                    t,
                    line,
                ));
            } else {
                assert(ids[k] == ids.last());
            }
        }
    }
}

proof fn lemma_record_one_identity(s: StoreModel, line: int, id: u64)
    requires
        find_post(s.tweets, id) matches Some(t) && has_occ(s.occurrences, t, line),
    ensures
        record_one(s, line, id) == s,
{
}

proof fn lemma_record_list_identity(s: StoreModel, line: int, ids: Seq<u64>)
    requires
        forall|k: int|
            0 <= k < ids.len() ==> (find_post(s.tweets, #[trigger] ids[k]) matches Some(t)
                && has_occ(s.occurrences, t, line)),
    ensures
        record_list(s, line, ids) == s,
    decreases ids.len(),
{
    if ids.len() > 0 {
        assert(forall|k: int|
            0 <= k < ids.drop_last().len() ==> #[trigger] ids.drop_last()[k] == ids[k]);
        lemma_record_list_identity(s, line, ids.drop_last());
        assert(ids[ids.len() - 1] == ids.last());
        lemma_record_one_identity(s, line, ids.last());
    }
}

/// Processing an event preserves the store's invariant.
pub proof fn lemma_record_event_wf(
    s: StoreModel,
    timestamp: int,
    prefix: Seq<char>,
    target: Seq<char>,
    msg: Seq<char>,
)
    requires
        s.wf(),
    ensures
        record_event_spec(s, timestamp, prefix, target, msg).wf(),
{
    if is_channel(target) && extract_spec(msg).len() > 0 {
        lemma_upsert_line(s, timestamp, prefix, target, msg);
        let s1 = StoreModel {
            lines: upsert_line_rows(s.lines, timestamp, prefix, target, msg),
            tweets: s.tweets,
            occurrences: s.occurrences,
        };
        lemma_record_list(s1, upsert_line_index(s.lines, prefix, target, msg), extract_spec(msg));
    }
}

/// Recording a chat event is idempotent: recording the same event again,
/// whatever timestamp the replay carries, changes nothing — no second line
/// row, no duplicate post row, no duplicate occurrence row.
pub proof fn lemma_record_idempotent(
    s: StoreModel,
    t1: int,
    t2: int,
    prefix: Seq<char>,
    target: Seq<char>,
    msg: Seq<char>,
)
    requires
        s.wf(),
    ensures
        record_event_spec(
            record_event_spec(s, t1, prefix, target, msg),
            t2,
            prefix,
            target,
            msg,
        ) == record_event_spec(s, t1, prefix, target, msg),
{
    if is_channel(target) && extract_spec(msg).len() > 0 {
        let ids = extract_spec(msg);
        let rows1 = upsert_line_rows(s.lines, t1, prefix, target, msg);
        let line1 = upsert_line_index(s.lines, prefix, target, msg);
        let s1 = StoreModel { lines: rows1, tweets: s.tweets, occurrences: s.occurrences };
        lemma_upsert_line(s, t1, prefix, target, msg);
        lemma_record_list(s1, line1, ids);
        let r1 = record_list(s1, line1, ids);
        assert(r1 == record_event_spec(s, t1, prefix, target, msg));
        assert(r1.lines == rows1);
        assert(find_line(r1.lines, prefix, target, msg) == Some(line1));
        assert(upsert_line_rows(r1.lines, t2, prefix, target, msg) == r1.lines);
        assert(upsert_line_index(r1.lines, prefix, target, msg) == line1);
        let s2 = StoreModel { lines: r1.lines, tweets: r1.tweets, occurrences: r1.occurrences };
        assert(s2 == r1);
        lemma_record_list_identity(r1, line1, ids);
        assert(record_event_spec(r1, t2, prefix, target, msg) == r1);
    }
}

/// However often an event is recorded, the store holds at most one
/// occurrence row per (post, line) pair: a replay adds no duplicate.
pub proof fn lemma_no_duplicate_occurrences(
    s: StoreModel,
    timestamp: int,
    prefix: Seq<char>,
    target: Seq<char>,
    msg: Seq<char>,
    k1: int,
    k2: int,
)
    requires
        s.wf(),
        0 <= k1 < k2 < record_event_spec(s, timestamp, prefix, target, msg).occurrences.len(),
    ensures
        ({
            let occs = record_event_spec(s, timestamp, prefix, target, msg).occurrences;
            !(occs[k1].tweet == occs[k2].tweet && occs[k1].line == occs[k2].line)
        }),
{
    lemma_record_event_wf(s, timestamp, prefix, target, msg);
}

/// How many post rows carry this external id.
pub open spec fn count_posts(tweets: Seq<PostModel>, id: u64) -> nat
    decreases tweets.len(),
{
    if tweets.len() == 0 {
        0
    } else {
        count_posts(tweets.drop_last(), id) + (if tweets.last().tweet_id == id {
            1nat
        } else {
            0nat
        })
    }
}

proof fn lemma_count_zero(tweets: Seq<PostModel>, id: u64)
    requires
        forall|i: int| 0 <= i < tweets.len() ==> (#[trigger] tweets[i]).tweet_id != id,
    ensures
        count_posts(tweets, id) == 0,
    decreases tweets.len(),
{
    if tweets.len() > 0 {
        assert(forall|i: int|
            0 <= i < tweets.drop_last().len() ==> #[trigger] tweets.drop_last()[i] == tweets[i]);
        lemma_count_zero(tweets.drop_last(), id);
        assert(tweets.last() == tweets[tweets.len() - 1]);
    }
}

proof fn lemma_unique_count(tweets: Seq<PostModel>, id: u64)
    requires
        forall|i: int, j: int|
            0 <= i < j < tweets.len() ==> tweets[i].tweet_id != tweets[j].tweet_id,
    ensures
        count_posts(tweets, id) <= 1,
    decreases tweets.len(),
{
    if tweets.len() > 0 {
        assert(forall|i: int|
            0 <= i < tweets.drop_last().len() ==> #[trigger] tweets.drop_last()[i] == tweets[i]);
        lemma_unique_count(tweets.drop_last(), id);
        if tweets.last().tweet_id == id {
            assert(forall|i: int|
                0 <= i < tweets.drop_last().len() ==> (#[trigger] tweets.drop_last()[i]).tweet_id
                    != id);
            lemma_count_zero(tweets.drop_last(), id);
        }
    }
}

/// Two chat events that reference the same external post id share one post
/// row: after recording both, at most one row carries any given id.
pub proof fn lemma_post_row_reused(
    s: StoreModel,
    t1: int,
    prefix1: Seq<char>,
    target1: Seq<char>,
    msg1: Seq<char>,
    t2: int,
    prefix2: Seq<char>,
    target2: Seq<char>,
    msg2: Seq<char>,
    id: u64,
)
    requires
        s.wf(),
    ensures
        count_posts(
            record_event_spec(
                record_event_spec(s, t1, prefix1, target1, msg1),
                t2,
                prefix2,
                target2,
                msg2,
            ).tweets,
            id,
        ) <= 1,
{
    lemma_record_event_wf(s, t1, prefix1, target1, msg1);
    let r1 = record_event_spec(s, t1, prefix1, target1, msg1);
    lemma_record_event_wf(r1, t2, prefix2, target2, msg2);
    let r2 = record_event_spec(r1, t2, prefix2, target2, msg2);
    lemma_unique_count(r2.tweets, id);
}

/// Processes one chat event: extracts the recognized post ids from the text
/// and, when the event is a channel message with at least one link, records
/// the line once and every id against it. Anything else changes nothing.
#[verifier::loop_isolation(false)]
pub fn record_message(store: &mut Store, timestamp: i64, prefix: &str, target: &str, msg: &str)
    requires
        old(store)@.wf(),
    ensures
        final(store)@ == record_event_spec(
            old(store)@,
            timestamp as int,
            prefix@,
            target@,
            msg@,
        ),
        final(store)@.wf(),
{
    let tlen = target.unicode_len();
    if tlen == 0 {
        return ;
    }
    if target.get_char(0) != '#' {
        return ;
    }
    assert(is_channel(target@));
    let ids = extract(msg);
    if ids.len() == 0 {
        return ;
    }
    let ghost s0 = store@;
    let line = store.maybe_insert_line(timestamp, prefix, target, msg);
    let ghost s1 = store@;
    proof {
        assert(s1 == StoreModel {
            lines: upsert_line_rows(s0.lines, timestamp as int, prefix@, target@, msg@),
            tweets: s0.tweets,
            occurrences: s0.occurrences,
        });
        assert(line as int == upsert_line_index(s0.lines, prefix@, target@, msg@));
    }
    let n = ids.len();
    let mut i: usize = 0;
    while i < n
        invariant
            0 <= i <= n,
            n == ids.len(),
            store@ == record_list(s1, line as int, ids@.take(i as int)),
            store@.wf(),
            store@.lines == s1.lines,
            (line as int) < store@.lines.len(),
        decreases n - i,
    {
        let ghost prev = store@;
        proof {
            assert(ids@.take(i + 1).drop_last() =~= ids@.take(i as int));
            assert(ids@.take(i + 1).last() == ids@[i as int]);
        }
        let t = store.maybe_insert_tweet(ids[i]);
        store.maybe_insert_occurence(t, line);
        proof {
            assert(store@ == record_one(prev, line as int, ids@[i as int]));
        }
        i = i + 1;
    }
    proof {
        assert(ids@.take(n as int) =~= ids@);
    }
}

} // verus!
