//! The store: three in-memory tables (lines, posts, occurrences) with the
//! uniqueness and write-once invariants that make ingestion and publishing
//! idempotent. Each table is modeled as a sequence of ghost rows; every
//! operation's contract states the exact transition on that model.

use vstd::prelude::*;

verus! {

/// One recorded chat message that contained at least one recognized link.
pub struct LineRow {
    pub timestamp: i64,
    pub prefix: String,
    pub target: String,
    pub msg: String,
}

/// One externally-identified shared post, keyed by its external id. The
/// resolution id and the error text are each write-once and exclude each
/// other.
pub struct PostRow {
    pub tweet_id: u64,
    pub retweet_id: Option<u64>,
    pub error: Option<String>,
}

/// One sighting of a post in a line; unique per (post, line) pair.
pub struct OccurrenceRow {
    pub tweet: usize,
    pub line: usize,
}

/// The mathematical image of a line row.
pub ghost struct LineModel {
    pub timestamp: int,
    pub prefix: Seq<char>,
    pub target: Seq<char>,
    pub msg: Seq<char>,
}

/// The mathematical image of a post row.
pub ghost struct PostModel {
    pub tweet_id: u64,
    pub retweet_id: Option<u64>,
    pub error: Option<Seq<char>>,
}

/// The mathematical image of an occurrence row.
pub ghost struct OccurrenceModel {
    pub tweet: int,
    pub line: int,
}

/// The mathematical image of the whole store.
pub ghost struct StoreModel {
    pub lines: Seq<LineModel>,
    pub tweets: Seq<PostModel>,
    pub occurrences: Seq<OccurrenceModel>,
}

impl View for LineRow {
    type V = LineModel;

    open spec fn view(&self) -> LineModel {
        LineModel {
            timestamp: self.timestamp as int,
            prefix: self.prefix@,
            target: self.target@,
            msg: self.msg@,
        }
    }
}

impl View for PostRow {
    type V = PostModel;

    open spec fn view(&self) -> PostModel {
        PostModel {
            tweet_id: self.tweet_id,
            retweet_id: self.retweet_id,
            error: match self.error {
                Some(e) => Some(e@),
                None => None,
            },
        }
    }
}

impl View for OccurrenceRow {
    type V = OccurrenceModel;

    open spec fn view(&self) -> OccurrenceModel {
        OccurrenceModel { tweet: self.tweet as int, line: self.line as int }
    }
}

/// The in-memory store shared by ingestion and publishing.
pub struct Store {
    pub lines: Vec<LineRow>,
    pub tweets: Vec<PostRow>,
    pub occurrences: Vec<OccurrenceRow>,
}

impl View for Store {
    type V = StoreModel;

    open spec fn view(&self) -> StoreModel {
        StoreModel {
            lines: self.lines@.map_values(|l: LineRow| l@),
            tweets: self.tweets@.map_values(|p: PostRow| p@),
            occurrences: self.occurrences@.map_values(|o: OccurrenceRow| o@),
        }
    }
}

/// Whether a line row carries exactly this event's key: sender prefix,
/// destination and raw text. The timestamp is not part of the key.
pub open spec fn line_key_matches(
    l: LineModel,
    prefix: Seq<char>,
    target: Seq<char>,
    msg: Seq<char>,
) -> bool {
    l.prefix == prefix && l.target == target && l.msg == msg
}

/// The index of the first line with this event key.
pub open spec fn find_line(
    lines: Seq<LineModel>,
    prefix: Seq<char>,
    target: Seq<char>,
    msg: Seq<char>,
) -> Option<int>
    decreases lines.len(),
{
    if lines.len() == 0 {
        None
    } else if line_key_matches(lines[0], prefix, target, msg) {
        Some(0)
    } else {
        match find_line(lines.drop_first(), prefix, target, msg) {
            Some(i) => Some(i + 1),
            None => None,
        }
    }
}

/// The index of the first post with this external id.
pub open spec fn find_post(tweets: Seq<PostModel>, tweet_id: u64) -> Option<int>
    decreases tweets.len(),
{
    if tweets.len() == 0 {
        None
    } else if tweets[0].tweet_id == tweet_id {
        Some(0)
    } else {
        match find_post(tweets.drop_first(), tweet_id) {
            Some(i) => Some(i + 1),
            None => None,
        }
    }
}

/// Whether the occurrence table already links this post to this line.
pub open spec fn has_occ(occs: Seq<OccurrenceModel>, tweet: int, line: int) -> bool {
    exists|k: int| 0 <= k < occs.len() && occs[k].tweet == tweet && occs[k].line == line
}

/// A freshly tracked post: no resolution, no error.
pub open spec fn new_post(tweet_id: u64) -> PostModel {
    PostModel { tweet_id: tweet_id, retweet_id: None, error: None }
}

/// The line table after recording this event: reused if the key is already
/// present, appended otherwise.
pub open spec fn upsert_line_rows(
    lines: Seq<LineModel>,
    timestamp: int,
    prefix: Seq<char>,
    target: Seq<char>,
    msg: Seq<char>,
) -> Seq<LineModel> {
    match find_line(lines, prefix, target, msg) {
        Some(_) => lines,
        None => lines.push(
            LineModel { timestamp: timestamp, prefix: prefix, target: target, msg: msg },
        ),
    }
}

/// The index of the event's line row after the upsert.
pub open spec fn upsert_line_index(
    lines: Seq<LineModel>,
    prefix: Seq<char>,
    target: Seq<char>,
    msg: Seq<char>,
) -> int {
    match find_line(lines, prefix, target, msg) {
        Some(i) => i,
        None => lines.len() as int,
    }
}

/// The post table after tracking this external id: unchanged if already
/// present, appended as a fresh pending post otherwise.
pub open spec fn upsert_post_rows(tweets: Seq<PostModel>, tweet_id: u64) -> Seq<PostModel> {
    match find_post(tweets, tweet_id) {
        Some(_) => tweets,
        None => tweets.push(new_post(tweet_id)),
    }
}

/// The index of the post with this external id after the upsert.
pub open spec fn upsert_post_index(tweets: Seq<PostModel>, tweet_id: u64) -> int {
    match find_post(tweets, tweet_id) {
        Some(i) => i,
        None => tweets.len() as int,
    }
}

/// The occurrence table after linking this post to this line: unchanged if
/// the pair exists, appended otherwise.
pub open spec fn upsert_occ_rows(
    occs: Seq<OccurrenceModel>,
    tweet: int,
    line: int,
) -> Seq<OccurrenceModel> {
    if has_occ(occs, tweet, line) {
        occs
    } else {
        occs.push(OccurrenceModel { tweet: tweet, line: line })
    }
}

impl StoreModel {
    /// The store's invariant: external ids are unique; (post, line) pairs are
    /// unique; occurrences reference existing rows; a post never carries both
    /// a resolution and an error; event keys are recorded at most once.
    pub open spec fn wf(self) -> bool {
        &&& forall|i: int, j: int|
            0 <= i < j < self.tweets.len() ==> self.tweets[i].tweet_id != self.tweets[j].tweet_id
        &&& forall|i: int|
            0 <= i < self.tweets.len() ==> !(self.tweets[i].retweet_id is Some
                && self.tweets[i].error is Some)
        &&& forall|i: int, j: int|
            0 <= i < j < self.occurrences.len() ==> !(self.occurrences[i].tweet
                == self.occurrences[j].tweet && self.occurrences[i].line
                == self.occurrences[j].line)
        &&& forall|i: int|
            0 <= i < self.occurrences.len() ==> 0 <= #[trigger] self.occurrences[i].tweet
                < self.tweets.len() && 0 <= self.occurrences[i].line < self.lines.len()
        &&& forall|i: int, j: int|
            0 <= i < j < self.lines.len() ==> !(self.lines[i].prefix == self.lines[j].prefix
                && self.lines[i].target == self.lines[j].target && self.lines[i].msg
                == self.lines[j].msg)
    }
}

/// A post's two outcome fields exclude each other: in a well-formed store no
/// row is both resolved and errored.
pub proof fn lemma_resolution_error_exclusive(s: StoreModel, i: int)
    requires
        s.wf(),
        0 <= i < s.tweets.len(),
    ensures
        !(s.tweets[i].retweet_id is Some && s.tweets[i].error is Some),
{
}

/// What `find_line` finds is the first row with the key; `None` means the
/// key is nowhere.
pub proof fn lemma_find_line_char(
    lines: Seq<LineModel>,
    prefix: Seq<char>,
    target: Seq<char>,
    msg: Seq<char>,
)
    ensures
        match find_line(lines, prefix, target, msg) {
            Some(i) => 0 <= i < lines.len() && line_key_matches(lines[i], prefix, target, msg)
                && forall|j: int|
                0 <= j < i ==> !line_key_matches(lines[j], prefix, target, msg),
            None => forall|j: int|
                0 <= j < lines.len() ==> !line_key_matches(lines[j], prefix, target, msg),
        },
    decreases lines.len(),
{
    if lines.len() > 0 && !line_key_matches(lines[0], prefix, target, msg) {
        lemma_find_line_char(lines.drop_first(), prefix, target, msg);
        assert(forall|j: int|
            1 <= j < lines.len() ==> #[trigger] lines[j] == lines.drop_first()[j - 1]);
        match find_line(lines.drop_first(), prefix, target, msg) {
            Some(i) => {
                assert(line_key_matches(lines[i + 1], prefix, target, msg));
            },
            None => {},
        }
    }
}

/// What `find_post` finds is the first row with the id; `None` means the id
/// is nowhere.
pub proof fn lemma_find_post_char(tweets: Seq<PostModel>, tweet_id: u64)
    ensures
        match find_post(tweets, tweet_id) {
            Some(i) => 0 <= i < tweets.len() && tweets[i].tweet_id == tweet_id && forall|j: int|
                0 <= j < i ==> tweets[j].tweet_id != tweet_id,
            None => forall|j: int| 0 <= j < tweets.len() ==> tweets[j].tweet_id != tweet_id,
        },
    decreases tweets.len(),
{
    if tweets.len() > 0 && tweets[0].tweet_id != tweet_id {
        lemma_find_post_char(tweets.drop_first(), tweet_id);
        assert(forall|j: int|
            1 <= j < tweets.len() ==> #[trigger] tweets[j] == tweets.drop_first()[j - 1]);
        match find_post(tweets.drop_first(), tweet_id) {
            Some(i) => {
                assert(tweets[i + 1].tweet_id == tweet_id);
            },
            None => {},
        }
    }
}

/// Appending a row moves `find_post` from `None` to the new index and leaves
/// an already found index alone.
pub proof fn lemma_find_post_push(tweets: Seq<PostModel>, p: PostModel, tweet_id: u64)
    ensures
        find_post(tweets.push(p), tweet_id) == (match find_post(tweets, tweet_id) {
            Some(i) => Some(i),
            None => {
                if p.tweet_id == tweet_id {
                    Some(tweets.len() as int)
                } else {
                    None
                }
            },
        }),
    decreases tweets.len(),
{
    let pushed = tweets.push(p);
    assert(pushed.len() == tweets.len() + 1);
    if tweets.len() == 0 {
        assert(pushed[0] == p);
        assert(pushed.drop_first() =~= Seq::<PostModel>::empty());
        assert(find_post(pushed.drop_first(), tweet_id) is None);
        assert(find_post(tweets, tweet_id) is None);
    } else {
        assert(pushed[0] == tweets[0]);
        assert(pushed.drop_first() =~= tweets.drop_first().push(p));
        lemma_find_post_push(tweets.drop_first(), p, tweet_id);
        assert(find_post(pushed.drop_first(), tweet_id) == find_post(
            tweets.drop_first().push(p),
            tweet_id,
        ));
    }
}

/// The same, for lines.
pub proof fn lemma_find_line_push(
    lines: Seq<LineModel>,
    l: LineModel,
    prefix: Seq<char>,
    target: Seq<char>,
    msg: Seq<char>,
)
    ensures
        find_line(lines.push(l), prefix, target, msg) == (match find_line(
            lines,
            prefix,
            target,
            msg,
        ) {
            Some(i) => Some(i),
            None => {
                if line_key_matches(l, prefix, target, msg) {
                    Some(lines.len() as int)
                } else {
                    None
                }
            },
        }),
    decreases lines.len(),
{
    let pushed = lines.push(l);
    assert(pushed.len() == lines.len() + 1);
    if lines.len() == 0 {
        assert(pushed[0] == l);
        assert(pushed.drop_first() =~= Seq::<LineModel>::empty());
        assert(find_line(pushed.drop_first(), prefix, target, msg) is None);
        assert(find_line(lines, prefix, target, msg) is None);
    } else {
        assert(pushed[0] == lines[0]);
        assert(pushed.drop_first() =~= lines.drop_first().push(l));
        lemma_find_line_push(lines.drop_first(), l, prefix, target, msg);
        assert(find_line(pushed.drop_first(), prefix, target, msg) == find_line(
            lines.drop_first().push(l),
            prefix,
            target,
            msg,
        ));
    }
}

impl Store {
    /// An empty store: the state each process starts from before anything is
    /// recorded.
    pub fn new() -> (s: Store)
        ensures
            s@.lines.len() == 0,
            s@.tweets.len() == 0,
            s@.occurrences.len() == 0,
            s@.wf(),
    {
        let s = Store { lines: Vec::new(), tweets: Vec::new(), occurrences: Vec::new() };
        proof {
            assert(s@.lines =~= Seq::<LineModel>::empty());
            assert(s@.tweets =~= Seq::<PostModel>::empty());
            assert(s@.occurrences =~= Seq::<OccurrenceModel>::empty());
        }
        s
    }

    /// Records the event's line, creating it only if its key (sender prefix,
    /// destination, text) was never recorded; returns the row's index.
    #[verifier::loop_isolation(false)]
    pub fn maybe_insert_line(
        &mut self,
        timestamp: i64,
        prefix: &str,
        target: &str,
        msg: &str,
    ) -> (line: usize)
        requires
            old(self)@.wf(),
        ensures
            final(self)@.lines == upsert_line_rows(
                old(self)@.lines,
                timestamp as int,
                prefix@,
                target@,
                msg@,
            ),
            line as int == upsert_line_index(old(self)@.lines, prefix@, target@, msg@),
            final(self)@.tweets == old(self)@.tweets,
            final(self)@.occurrences == old(self)@.occurrences,
            final(self)@.wf(),
            (line as int) < final(self)@.lines.len(),
            find_line(final(self)@.lines, prefix@, target@, msg@) == Some(line as int),
    {
        proof {
            lemma_find_line_char(self@.lines, prefix@, target@, msg@);
        }
        let n = self.lines.len();
        let mut i: usize = 0;
        while i < n
            invariant
                self == old(self),
                0 <= i <= n,
                n == self.lines.len(),
                self@.lines.len() == n,
                forall|j: int|
                    0 <= j < i ==> !line_key_matches(self@.lines[j], prefix@, target@, msg@),
            decreases n - i,
        {
            let hit = crate::text::str_eq(self.lines[i].prefix.as_str(), prefix)
                && crate::text::str_eq(self.lines[i].target.as_str(), target)
                && crate::text::str_eq(self.lines[i].msg.as_str(), msg);
            if hit {
                assert(line_key_matches(self@.lines[i as int], prefix@, target@, msg@));
                return i;
            }
            assert(!line_key_matches(self@.lines[i as int], prefix@, target@, msg@));
            i = i + 1;
        }
        let row = LineRow {
            timestamp: timestamp,
            prefix: prefix.to_owned(),
            target: target.to_owned(),
            msg: msg.to_owned(),
        };
        let ghost old_model = self@;
        let ghost row_model = row@;
        self.lines.push(row);
        proof {
            assert(self@.lines =~= old_model.lines.push(row_model));
            assert(self@.tweets =~= old_model.tweets);
            assert(self@.occurrences =~= old_model.occurrences);
            lemma_find_line_push(old_model.lines, row_model, prefix@, target@, msg@);
            assert(line_key_matches(row_model, prefix@, target@, msg@));
        }
        n
    }

    /// Tracks an external post id, creating a fresh pending post only when
    /// the id was never seen; returns the post's index.
    #[verifier::loop_isolation(false)]
    pub fn maybe_insert_tweet(&mut self, tweet_id: u64) -> (t: usize)
        requires
            old(self)@.wf(),
        ensures
            final(self)@.tweets == upsert_post_rows(old(self)@.tweets, tweet_id),
            t as int == upsert_post_index(old(self)@.tweets, tweet_id),
            final(self)@.lines == old(self)@.lines,
            final(self)@.occurrences == old(self)@.occurrences,
            final(self)@.wf(),
            (t as int) < final(self)@.tweets.len(),
            find_post(final(self)@.tweets, tweet_id) == Some(t as int),
            final(self)@.tweets[t as int].tweet_id == tweet_id,
    {
        proof {
            lemma_find_post_char(self@.tweets, tweet_id);
        }
        let n = self.tweets.len();
        let mut i: usize = 0;
        while i < n
            invariant
                self == old(self),
                0 <= i <= n,
                n == self.tweets.len(),
                self@.tweets.len() == n,
                forall|j: int| 0 <= j < i ==> self@.tweets[j].tweet_id != tweet_id,
            decreases n - i,
        {
            if self.tweets[i].tweet_id == tweet_id {
                assert(self@.tweets[i as int].tweet_id == tweet_id);
                return i;
            }
            assert(self@.tweets[i as int].tweet_id != tweet_id);
            i = i + 1;
        }
        let row = PostRow { tweet_id: tweet_id, retweet_id: None, error: None };
        let ghost old_model = self@;
        self.tweets.push(row);
        proof {
            assert(row@ == new_post(tweet_id));
            assert(self@.tweets =~= old_model.tweets.push(new_post(tweet_id)));
            assert(self@.lines =~= old_model.lines);
            assert(self@.occurrences =~= old_model.occurrences);
            lemma_find_post_push(old_model.tweets, new_post(tweet_id), tweet_id);
        }
        n
    }

    /// Links a post to a line, ignoring the insert when the pair already
    /// exists.
    #[verifier::loop_isolation(false)]
    pub fn maybe_insert_occurence(&mut self, tweet: usize, line: usize)
        requires
            old(self)@.wf(),
            tweet < old(self)@.tweets.len(),
            line < old(self)@.lines.len(),
        ensures
            final(self)@.occurrences == upsert_occ_rows(
                old(self)@.occurrences,
                tweet as int,
                line as int,
            ),
            final(self)@.lines == old(self)@.lines,
            final(self)@.tweets == old(self)@.tweets,
            final(self)@.wf(),
            has_occ(final(self)@.occurrences, tweet as int, line as int),
    {
        let n = self.occurrences.len();
        let mut i: usize = 0;
        while i < n
            invariant
                self == old(self),
                0 <= i <= n,
                n == self.occurrences.len(),
                self@.occurrences.len() == n,
                forall|j: int|
                    0 <= j < i ==> !(self@.occurrences[j].tweet == tweet as int
                        && self@.occurrences[j].line == line as int),
            decreases n - i,
        {
            if self.occurrences[i].tweet == tweet && self.occurrences[i].line == line {
                assert(self@.occurrences[i as int].tweet == tweet as int
                    && self@.occurrences[i as int].line == line as int);
                assert(has_occ(self@.occurrences, tweet as int, line as int));
                return ;
            }
            assert(!(self@.occurrences[i as int].tweet == tweet as int
                && self@.occurrences[i as int].line == line as int));
            i = i + 1;
        }
        assert(!has_occ(self@.occurrences, tweet as int, line as int));
        let ghost old_model = self@;
        self.occurrences.push(OccurrenceRow { tweet: tweet, line: line });
        proof {
            assert(self@.occurrences =~= old_model.occurrences.push(
                OccurrenceModel { tweet: tweet as int, line: line as int },
            ));
            assert(self@.lines =~= old_model.lines);
            assert(self@.tweets =~= old_model.tweets);
            assert(self@.occurrences[n as int] == OccurrenceModel {
                tweet: tweet as int,
                line: line as int,
            });
            assert(has_occ(self@.occurrences, tweet as int, line as int));
        }
    }
}

} // verus!
