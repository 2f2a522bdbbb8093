//! Reconciliation of successive snapshots of a thread, and the bookkeeping of the threads whose
//! metadata is remembered between polls.

use std::collections::HashMap;

use vstd::prelude::*;

use crate::board::{lemma_index_injective, Board, BOARD_COUNT};
use crate::config::Config;
use crate::fetch::FetchError;
use crate::four_chan::{OpData, Post};
use crate::order::{
    distinct_nos, has_no, lemma_sort_distinct, lemma_sort_members, no_repeats, sort_by_no,
    sorted_by_no, strictly_ascending, Numbered,
};
use crate::poller::ThreadUpdate;

verus! {

broadcast use vstd::std_specs::hash::group_hash_axioms;

/// The xxHash64 digest, with seed 0, of the UTF-8 encoding of a text.
pub uninterp spec fn xxhash64_of(s: Seq<char>) -> u64;

/// Relies on twox_hash::XxHash64 (seeded with 0 by `default`, fed by `write`, read by `finish`):
/// the digest of the text's UTF-8 bytes.
#[verifier::external_body]
fn comment_hash(c: &str) -> (r: u64)
    ensures
        r == xxhash64_of(c@),
{
    let mut hasher = twox_hash::XxHash64::default();
    std::hash::Hasher::write(&mut hasher, c.as_bytes());
    std::hash::Hasher::finish(&hasher)
}

/// Whether a removed post was archived with its thread or deleted.
#[derive(Clone, Copy, Debug, PartialEq, Eq, Structural)]
pub enum RemovedStatus {
    Archived,
    Deleted,
}

/// The part of a post that can change after it was made.
#[derive(Clone, Copy, Debug, PartialEq, Eq, Structural)]
pub struct Fingerprint {
    /// The digest of the comment before cleaning.
    pub comment_hash: Option<u64>,
    /// The spoiler flag of the image.
    pub spoiler: Option<bool>,
}

/// The fingerprint of a post.
pub open spec fn fingerprint(p: Post) -> Fingerprint {
    Fingerprint {
        comment_hash: match p.comment {
            Some(c) => Some(xxhash64_of(c@)),
            None => None,
        },
        spoiler: match p.image {
            Some(i) => Some(i.spoiler),
            None => None,
        },
    }
}

/// What is remembered of a post to tell whether it changed.
#[derive(Clone, Copy, Debug, PartialEq, Eq, Structural)]
pub struct PostMetadata {
    pub no: u64,
    pub metadata: Fingerprint,
}

impl Numbered for PostMetadata {
    open spec fn spec_no(&self) -> u64 {
        self.no
    }

    fn no(&self) -> (r: u64) {
        self.no
    }
}

impl PostMetadata {
    /// The metadata of a post.
    pub fn from_post(post: &Post) -> (r: Self)
        ensures
            r.no == post.no,
            r.metadata == fingerprint(*post),
    {
        let comment_hash = match &post.comment {
            Some(c) => Some(comment_hash(c.as_str())),
            None => None,
        };
        let spoiler = match &post.image {
            Some(i) => Some(i.spoiler),
            None => None,
        };
        PostMetadata { no: post.no, metadata: Fingerprint { comment_hash, spoiler } }
    }
}

/// The metadata of each post of `posts`.
pub open spec fn metadata_of(posts: Seq<Post>) -> Seq<PostMetadata> {
    Seq::new(posts.len(), |i: int| PostMetadata { no: posts[i].no, metadata: fingerprint(posts[i]) })
}

/// What is remembered of a live thread between polls.
pub struct ThreadMetadata {
    pub op_data: OpData,
    pub posts: Vec<PostMetadata>,
}

impl ThreadMetadata {
    /// The metadata of a thread from its posts, the opening post first.
    pub fn from_thread(thread: &Vec<Post>) -> (r: Self)
        requires
            thread@.len() > 0,
        ensures
            r.op_data == thread@[0].op_data,
            r.posts@ == metadata_of(thread@),
    {
        let mut posts: Vec<PostMetadata> = Vec::new();
        let mut i: usize = 0;
        while i < thread.len()
            invariant
                i <= thread@.len(),
                posts@ =~= metadata_of(thread@).take(i as int),
            decreases thread@.len() - i,
        {
            posts.push(PostMetadata::from_post(&thread[i]));
            i = i + 1;
        }
        ThreadMetadata { op_data: thread[0].op_data, posts }
    }
}

/// The spoiler flag of a post's image, if it has one.
pub open spec fn spoiler_of(p: Post) -> Option<bool> {
    match p.image {
        Some(i) => Some(i.spoiler),
        None => None,
    }
}

/// The length of the longest prefix of `curr` whose posts all stand in `prev`: the posts after it
/// are new, as the site only appends to a thread.
pub open spec fn known_prefix_len(prev: Seq<PostMetadata>, curr: Seq<PostMetadata>) -> nat
    decreases curr.len(),
{
    if curr.len() == 0 || !has_no(prev, curr[0].no) {
        0
    } else {
        1 + known_prefix_len(prev, curr.drop_first())
    }
}

/// `c` stands in `prev` with other metadata.
pub open spec fn differs(prev: Seq<PostMetadata>, c: PostMetadata) -> bool {
    exists|k: int| 0 <= k < prev.len() && prev[k].no == c.no && prev[k].metadata != c.metadata
}

/// The row that updates a modified post: its number, its comment, and its spoiler flag.
pub open spec fn modified_row(p: Post) -> (u64, Option<String>, Option<bool>) {
    (p.no, p.comment, spoiler_of(p))
}

/// The rows of the first `n` posts that were modified.
pub open spec fn modified_rows(
    prev: Seq<PostMetadata>,
    curr: Seq<PostMetadata>,
    posts: Seq<Post>,
    n: nat,
) -> Seq<(u64, Option<String>, Option<bool>)>
    decreases n,
{
    if n == 0 {
        Seq::empty()
    } else {
        let rest = modified_rows(prev, curr, posts, (n - 1) as nat);
        if differs(prev, curr[n - 1]) {
            rest.push(modified_row(posts[n - 1]))
        } else {
            rest
        }
    }
}

/// The posts of `ps` that `curr` no longer holds, marked deleted, in the order of `ps`.
pub open spec fn deleted_posts(ps: Seq<PostMetadata>, curr: Seq<PostMetadata>) -> Seq<
    (u64, RemovedStatus),
>
    decreases ps.len(),
{
    if ps.len() == 0 {
        Seq::empty()
    } else {
        let rest = deleted_posts(ps.drop_last(), curr);
        if !has_no(curr, ps.last().no) {
            rest.push((ps.last().no, RemovedStatus::Deleted))
        } else {
            rest
        }
    }
}

/// The writes that bring the archive of a thread from one snapshot to the next.
pub struct ThreadChanges {
    /// The opening post's flags, where they changed.
    pub op_data: Option<OpData>,
    /// The posts that are new, in ascending order of number.
    pub new_posts: Vec<Post>,
    /// For each modified post: its number, its new comment and its spoiler flag.
    pub modified_posts: Vec<(u64, Option<String>, Option<bool>)>,
    /// The posts that were deleted.
    pub deleted_posts: Vec<(u64, RemovedStatus)>,
}

/// Compares the remembered metadata of a thread with the metadata of its fresh posts and returns
/// the writes that follow. The comments of modified posts are moved out of `posts` into the rows
/// that update them.
pub fn reconcile(posts: Vec<Post>, prev_meta: &ThreadMetadata, curr_meta: &ThreadMetadata) -> (r:
    ThreadChanges)
    requires
        strictly_ascending(prev_meta.posts@),
        strictly_ascending(curr_meta.posts@),
        curr_meta.posts@.len() == posts@.len(),
        forall|i: int| 0 <= i < posts@.len() ==> #[trigger] posts@[i].no == curr_meta.posts@[i].no,
    ensures
        r.op_data == (if prev_meta.op_data != curr_meta.op_data {
            Some(curr_meta.op_data)
        } else {
            None
        }),
        r.new_posts@ == posts@.skip(known_prefix_len(prev_meta.posts@, curr_meta.posts@) as int),
        r.modified_posts@ == modified_rows(
            prev_meta.posts@,
            curr_meta.posts@,
            posts@,
            known_prefix_len(prev_meta.posts@, curr_meta.posts@),
        ),
        r.deleted_posts@ == deleted_posts(prev_meta.posts@, curr_meta.posts@),
{
    let ghost old_posts = posts@;
    let prev = &prev_meta.posts;
    let curr = &curr_meta.posts;
    let mut posts = posts;
    let mut modified: Vec<(u64, Option<String>, Option<bool>)> = Vec::new();
    let mut pk: usize = 0;
    let mut i: usize = 0;
    let ghost s = known_prefix_len(prev@, curr@);
    proof {
        lemma_known_prefix(prev@, curr@);
    }
    let mut stopped = false;
    while !stopped && i < curr.len()
        invariant
            i <= curr@.len(),
            stopped ==> i >= s,
            pk <= prev@.len(),
            s == known_prefix_len(prev@, curr@),
            s <= curr@.len(),
            forall|k: int| 0 <= k < s ==> has_no(prev@, #[trigger] curr@[k].no),
            s < curr@.len() ==> !has_no(prev@, curr@[s as int].no),
            i <= s,
            strictly_ascending(prev@),
            strictly_ascending(curr@),
            curr@.len() == posts@.len(),
            posts@.len() == old_posts.len(),
            forall|k: int| 0 <= k < old_posts.len() ==> #[trigger] old_posts[k].no == curr@[k].no,
            forall|k: int| i <= k < old_posts.len() ==> posts@[k] == old_posts[k],
            forall|k: int| 0 <= k < pk && i < curr@.len() ==> prev@[k].no < curr@[i as int].no,
            modified@ == modified_rows(prev@, curr@, old_posts, i as nat),
        decreases curr@.len() - i + (if stopped { 0int } else { 1int }),
    {
        let c = curr[i];
        while pk < prev.len() && prev[pk].no < c.no
            invariant
                pk <= prev@.len(),
                i < curr@.len(),
                c == curr@[i as int],
                forall|k: int| 0 <= k < pk ==> prev@[k].no < c.no,
            decreases prev@.len() - pk,
        {
            pk = pk + 1;
        }
        if pk < prev.len() && prev[pk].no == c.no {
            let ghost p_at = pk as int;
            assert(differs(prev@, c) == (prev@[p_at].metadata != c.metadata)) by {
                if differs(prev@, c) {
                    let k = choose|k: int|
                        0 <= k < prev@.len() && prev@[k].no == c.no && prev@[k].metadata
                            != c.metadata;
                    if k != p_at {
                        lemma_strictly_ascending_distinct(prev@, k, p_at);
                    }
                }
            }
            if prev[pk].metadata != c.metadata {
                let no = posts[i].no;
                let spoiler = match &posts[i].image {
                    Some(image) => Some(image.spoiler),
                    None => None,
                };
                let comment = posts[i].comment.take();
                modified.push((no, comment, spoiler));
            }
            pk = pk + 1;
            i = i + 1;
            proof {
                if i < curr@.len() {
                    assert(curr@[i - 1].no < curr@[i as int].no);
                }
            }
        } else {
            proof {
                assert(!has_no(prev@, c.no)) by {
                    if has_no(prev@, c.no) {
                        let k = choose|k: int| 0 <= k < prev@.len() && prev@[k].spec_no() == c.no;
                        if k > pk {
                            assert(prev@[pk as int].no < prev@[k].no);
                        }
                    }
                }
                assert(i >= s);
            }
            stopped = true;
        }
    }
    proof {
        if i < s {
            assert(has_no(prev@, curr@[i as int].no));
        }
        assert(i == s) by {
            if i < s {
                assert(i == curr@.len());
            }
        }
    }
    let new_posts = posts.split_off(i);
    let deleted = deleted_from(prev, curr);
    let op_data = if prev_meta.op_data != curr_meta.op_data {
        Some(curr_meta.op_data)
    } else {
        None
    };
    ThreadChanges { op_data, new_posts, modified_posts: modified, deleted_posts: deleted }
}

proof fn lemma_strictly_ascending_distinct<T: Numbered>(s: Seq<T>, i: int, j: int)
    requires
        strictly_ascending(s),
        0 <= i < s.len(),
        0 <= j < s.len(),
        i != j,
    ensures
        s[i].spec_no() != s[j].spec_no(),
{
    if i < j {
        assert(s[i].spec_no() < s[j].spec_no());
    } else {
        assert(s[j].spec_no() < s[i].spec_no());
    }
}

proof fn lemma_known_prefix(prev: Seq<PostMetadata>, curr: Seq<PostMetadata>)
    ensures
        known_prefix_len(prev, curr) <= curr.len(),
        forall|k: int|
            0 <= k < known_prefix_len(prev, curr) ==> has_no(prev, #[trigger] curr[k].no),
        known_prefix_len(prev, curr) < curr.len() ==> !has_no(
            prev,
            curr[known_prefix_len(prev, curr) as int].no,
        ),
    decreases curr.len(),
{
    if curr.len() > 0 && has_no(prev, curr[0].no) {
        let d = curr.drop_first();
        lemma_known_prefix(prev, d);
        assert forall|k: int| 0 <= k < known_prefix_len(prev, curr) implies has_no(
            prev,
            #[trigger] curr[k].no,
        ) by {
            if k > 0 {
                assert(curr[k] == d[k - 1]);
            }
        }
        if known_prefix_len(prev, curr) < curr.len() {
            assert(curr[known_prefix_len(prev, curr) as int] == d[known_prefix_len(prev, d) as int]);
        }
    }
}

/// The posts of `prev` that `curr` no longer holds, marked deleted.
fn deleted_from(prev: &Vec<PostMetadata>, curr: &Vec<PostMetadata>) -> (r: Vec<(u64, RemovedStatus)>)
    requires
        strictly_ascending(prev@),
        strictly_ascending(curr@),
    ensures
        r@ == deleted_posts(prev@, curr@),
{
    let mut out: Vec<(u64, RemovedStatus)> = Vec::new();
    let mut j: usize = 0;
    let mut i: usize = 0;
    while i < prev.len()
        invariant
            i <= prev@.len(),
            j <= curr@.len(),
            strictly_ascending(prev@),
            strictly_ascending(curr@),
            forall|jj: int| 0 <= jj < j && i < prev@.len() ==> curr@[jj].no < prev@[i as int].no,
            out@ == deleted_posts(prev@.take(i as int), curr@),
        decreases prev@.len() - i,
    {
        let p = prev[i];
        while j < curr.len() && curr[j].no < p.no
            invariant
                j <= curr@.len(),
                i < prev@.len(),
                p == prev@[i as int],
                strictly_ascending(curr@),
                forall|jj: int| 0 <= jj < j ==> curr@[jj].no < p.no,
            decreases curr@.len() - j,
        {
            j = j + 1;
        }
        assert(prev@.take(i + 1).drop_last() =~= prev@.take(i as int));
        assert(prev@.take(i + 1).last() == p);
        if j < curr.len() && curr[j].no == p.no {
            assert(has_no(curr@, p.no)) by {
                assert(curr@[j as int].spec_no() == p.no);
            }
        } else {
            assert(!has_no(curr@, p.no)) by {
                if has_no(curr@, p.no) {
                    let k = choose|k: int| 0 <= k < curr@.len() && curr@[k].spec_no() == p.no;
                    if k > j {
                        assert(curr@[j as int].no < curr@[k].no);
                    }
                }
            }
            out.push((p.no, RemovedStatus::Deleted));
        }
        i = i + 1;
        assert forall|jj: int| 0 <= jj < j && i < prev@.len() implies curr@[jj].no
            < prev@[i as int].no by {
            assert(prev@[i - 1].no < prev@[i as int].no);
        }
    }
    assert(prev@.take(prev@.len() as int) =~= prev@);
    out
}

/// What one update of a board's index does to the remembered threads of the board: the new
/// metadata, the threads to fetch, and the removals to record.
pub open spec fn update_step(
    m: Map<u64, ThreadMetadata>,
    u: ThreadUpdate,
    archived_board: bool,
    refetch_archived: bool,
    always_add_archive_times: bool,
) -> (Map<u64, ThreadMetadata>, Seq<u64>, Seq<(u64, RemovedStatus)>) {
    match u {
        ThreadUpdate::New(n) => (m, seq![n], Seq::empty()),
        ThreadUpdate::Modified(n) => (m, seq![n], Seq::empty()),
        ThreadUpdate::BumpedOff(n) => if !m.contains_key(n) {
            (m, Seq::empty(), Seq::empty())
        } else if archived_board && refetch_archived {
            (m.remove(n), seq![n], Seq::empty())
        } else if archived_board || always_add_archive_times {
            (m.remove(n), Seq::empty(), seq![(n, RemovedStatus::Archived)])
        } else {
            (m.remove(n), Seq::empty(), Seq::empty())
        },
        ThreadUpdate::Deleted(n) => if m.contains_key(n) {
            (m.remove(n), Seq::empty(), seq![(n, RemovedStatus::Deleted)])
        } else {
            (m, Seq::empty(), Seq::empty())
        },
    }
}

/// What a sequence of updates of a board's index does, one after the other.
pub open spec fn board_update_effect(
    m: Map<u64, ThreadMetadata>,
    us: Seq<ThreadUpdate>,
    archived_board: bool,
    refetch_archived: bool,
    always_add_archive_times: bool,
) -> (Map<u64, ThreadMetadata>, Seq<u64>, Seq<(u64, RemovedStatus)>)
    decreases us.len(),
{
    if us.len() == 0 {
        (m, Seq::empty(), Seq::empty())
    } else {
        let before = board_update_effect(
            m,
            us.drop_last(),
            archived_board,
            refetch_archived,
            always_add_archive_times,
        );
        let step = update_step(
            before.0,
            us.last(),
            archived_board,
            refetch_archived,
            always_add_archive_times,
        );
        (step.0, before.1 + step.1, before.2 + step.2)
    }
}

/// The writes to the archive that follow a fetch of a thread, and the time to record removals
/// with.
pub struct ThreadWrites {
    /// Posts to insert, in ascending order of number.
    pub insert_posts: Vec<Post>,
    /// The opening post's flags, where they changed.
    pub update_op: Option<OpData>,
    /// For each modified post: its number, its new comment and its spoiler flag.
    pub update_posts: Vec<(u64, Option<String>, Option<bool>)>,
    /// Posts to mark removed.
    pub removed_posts: Vec<(u64, RemovedStatus)>,
    /// When the removals took place, in seconds.
    pub removed_at: i64,
}

/// Nothing is written.
pub open spec fn no_writes(w: ThreadWrites) -> bool {
    &&& w.insert_posts@.len() == 0
    &&& w.update_op is None
    &&& w.update_posts@.len() == 0
    &&& w.removed_posts@.len() == 0
}

fn empty_writes(at: i64) -> (r: ThreadWrites)
    ensures
        no_writes(r),
        r.removed_at == at,
{
    ThreadWrites {
        insert_posts: Vec::new(),
        update_op: None,
        update_posts: Vec::new(),
        removed_posts: Vec::new(),
        removed_at: at,
    }
}

/// The posts of a fetched thread can be taken in: there is one at least, and no number repeats.
pub open spec fn usable_posts(posts: Seq<Post>) -> bool {
    posts.len() > 0 && distinct_nos(posts)
}

/// The reconciliation of live threads: the metadata remembered of each thread of each board.
pub struct ThreadUpdater {
    thread_meta: Vec<HashMap<u64, ThreadMetadata>>,
    refetch_archived_threads: bool,
    always_add_archive_times: bool,
}

impl ThreadUpdater {
    /// The updater holds a map for every board, and the posts of every remembered thread are in
    /// strictly ascending order of number.
    pub closed spec fn well_formed(&self) -> bool {
        &&& self.thread_meta@.len() == BOARD_COUNT
        &&& forall|b: int, no: u64|
            0 <= b < BOARD_COUNT && #[trigger] self.thread_meta@[b]@.contains_key(no)
                ==> strictly_ascending(self.thread_meta@[b]@[no].posts@)
    }

    /// The metadata remembered of the threads of a board.
    pub closed spec fn meta(&self, board: Board) -> Map<u64, ThreadMetadata> {
        self.thread_meta@[board.spec_index() as int]@
    }

    /// Whether threads bumped off an archived board are fetched once more.
    pub closed spec fn refetches_archived(&self) -> bool {
        self.refetch_archived_threads
    }

    /// Whether threads bumped off any board are recorded as archived.
    pub closed spec fn adds_archive_times(&self) -> bool {
        self.always_add_archive_times
    }

    /// An updater that remembers no thread yet.
    pub fn new(config: &Config) -> (r: Self)
        ensures
            r.well_formed(),
            r.refetches_archived() == config.asagi_compat.refetch_archived_threads,
            r.adds_archive_times() == config.asagi_compat.always_add_archive_times,
            forall|b: Board| #[trigger] r.meta(b) == Map::<u64, ThreadMetadata>::empty(),
    {
        let mut thread_meta: Vec<HashMap<u64, ThreadMetadata>> = Vec::new();
        let mut i: usize = 0;
        while i < BOARD_COUNT
            invariant
                i <= BOARD_COUNT,
                thread_meta@.len() == i,
                forall|k: int| 0 <= k < i ==> (#[trigger] thread_meta@[k])@ == Map::<
                    u64,
                    ThreadMetadata,
                >::empty(),
            decreases BOARD_COUNT - i,
        {
            thread_meta.push(HashMap::new());
            i = i + 1;
        }
        let r = ThreadUpdater {
            thread_meta,
            refetch_archived_threads: config.asagi_compat.refetch_archived_threads,
            always_add_archive_times: config.asagi_compat.always_add_archive_times,
        };
        assert forall|b: Board| #[trigger] r.meta(b) == Map::<u64, ThreadMetadata>::empty() by {
            lemma_index_injective(b);
        }
        r
    }

    /// Takes in the updates of a poll of `board`: returns the threads to fetch and the removals
    /// to record, and forgets the threads that left the board.
    pub fn handle_board_update(&mut self, board: Board, updates: &Vec<ThreadUpdate>) -> (r: (
        Vec<u64>,
        Vec<(u64, RemovedStatus)>,
    ))
        requires
            old(self).well_formed(),
        ensures
            final(self).well_formed(),
            final(self).refetches_archived() == old(self).refetches_archived(),
            final(self).adds_archive_times() == old(self).adds_archive_times(),
            (final(self).meta(board), r.0@, r.1@) == board_update_effect(
                old(self).meta(board),
                updates@,
                board.spec_is_archived(),
                old(self).refetches_archived(),
                old(self).adds_archive_times(),
            ),
            forall|b: Board| b != board ==> #[trigger] final(self).meta(b) == old(self).meta(b),
    {
        let b = board.index();
        let archived = board.is_archived();
        let mut fetch: Vec<u64> = Vec::new();
        let mut removed: Vec<(u64, RemovedStatus)> = Vec::new();
        let mut i: usize = 0;
        while i < updates.len()
            invariant
                i <= updates@.len(),
                b == board.spec_index(),
                archived == board.spec_is_archived(),
                self.well_formed(),
                self.refetch_archived_threads == old(self).refetch_archived_threads,
                self.always_add_archive_times == old(self).always_add_archive_times,
                (self.meta(board), fetch@, removed@) == board_update_effect(
                    old(self).meta(board),
                    updates@.take(i as int),
                    archived,
                    self.refetch_archived_threads,
                    self.always_add_archive_times,
                ),
                forall|k: int| 0 <= k < BOARD_COUNT && k != b ==> self.thread_meta@[k] == old(self).thread_meta@[k],
            decreases updates@.len() - i,
        {
            let ghost before = (self.meta(board), fetch@, removed@);
            assert(updates@.take(i + 1).drop_last() =~= updates@.take(i as int));
            assert(updates@.take(i + 1).last() == updates@[i as int]);
            match updates[i] {
                ThreadUpdate::New(no) => {
                    fetch.push(no);
                },
                ThreadUpdate::Modified(no) => {
                    fetch.push(no);
                },
                ThreadUpdate::BumpedOff(no) => {
                    if self.thread_meta[b].contains_key(&no) {
                        self.thread_meta[b].remove(&no);
                        if archived && self.refetch_archived_threads {
                            fetch.push(no);
                        } else if archived || self.always_add_archive_times {
                            removed.push((no, RemovedStatus::Archived));
                        }
                    }
                },
                ThreadUpdate::Deleted(no) => {
                    if self.thread_meta[b].remove(&no).is_some() {
                        removed.push((no, RemovedStatus::Deleted));
                    }
                },
            }
            proof {
                let step = update_step(
                    before.0,
                    updates@[i as int],
                    archived,
                    self.refetch_archived_threads,
                    self.always_add_archive_times,
                );
                assert(fetch@ =~= before.1 + step.1);
                assert(removed@ =~= before.2 + step.2);
                assert(self.meta(board) =~= step.0);
            }
            i = i + 1;
        }
        proof {
            assert(updates@.take(updates@.len() as int) =~= updates@);
            assert forall|bb: Board| bb != board implies #[trigger] self.meta(bb) == old(self).meta(bb) by {
                lemma_index_injective(bb);
                lemma_index_injective(board);
            }
        }
        (fetch, removed)
    }

    /// Takes in the result of fetching thread `no` of `board` and returns the writes that
    /// follow. `from_archive` tells that the thread came from the board's archive; `now` is the
    /// time now, in seconds.
    pub fn process_thread(
        &mut self,
        board: Board,
        no: u64,
        from_archive: bool,
        result: Result<(Vec<Post>, i64), FetchError>,
        now: i64,
    ) -> (r: ThreadWrites)
        requires
            old(self).well_formed(),
        ensures
            final(self).well_formed(),
            final(self).refetches_archived() == old(self).refetches_archived(),
            final(self).adds_archive_times() == old(self).adds_archive_times(),
            forall|b: Board| b != board ==> #[trigger] final(self).meta(b) == old(self).meta(b),
            match result {
                Ok((posts, last_modified)) => if !usable_posts(posts@) {
                    no_writes(r) && final(self).meta(board) == old(self).meta(board)
                } else {
                    let sorted = sort_by_no(posts@);
                    let curr = metadata_of(sorted);
                    let op = sorted[0].op_data;
                    &&& if op.archived {
                        final(self).meta(board) == old(self).meta(board).remove(no)
                    } else {
                        &&& final(self).meta(board).contains_key(no)
                        &&& final(self).meta(board)[no].op_data == op
                        &&& final(self).meta(board)[no].posts@ == curr
                        &&& final(self).meta(board).remove(no) == old(self).meta(board).remove(no)
                    }
                    &&& if old(self).meta(board).contains_key(no) {
                        let prev = old(self).meta(board)[no];
                        let known = known_prefix_len(prev.posts@, curr);
                        &&& r.update_op == (if prev.op_data != op {
                            Some(op)
                        } else {
                            None
                        })
                        &&& r.insert_posts@ == sorted.skip(known as int)
                        &&& r.update_posts@ == modified_rows(prev.posts@, curr, sorted, known)
                        &&& r.removed_posts@ == deleted_posts(prev.posts@, curr)
                        &&& r.removed_at == last_modified
                    } else {
                        &&& r.insert_posts@ == sorted
                        &&& r.update_op is None
                        &&& r.update_posts@.len() == 0
                        &&& r.removed_posts@.len() == 0
                    }
                },
                Err(FetchError::NotFound(_)) => if from_archive {
                    no_writes(r) && final(self).meta(board) == old(self).meta(board)
                } else {
                    &&& final(self).meta(board) == old(self).meta(board).remove(no)
                    &&& r.insert_posts@.len() == 0
                    &&& r.update_op is None
                    &&& r.update_posts@.len() == 0
                    &&& r.removed_posts@ == seq![(no, RemovedStatus::Deleted)]
                    &&& r.removed_at == now
                },
                Err(_) => no_writes(r) && final(self).meta(board) == old(self).meta(board),
            },
    {
        let b = board.index();
        let writes = match result {
            Ok((posts, last_modified)) => {
                let ghost original = posts@;
                proof {
                    lemma_sort_members(original);
                    lemma_sort_distinct(original);
                }
                let sorted = sorted_by_no(posts);
                if sorted.len() == 0 || !no_repeats(&sorted) {
                    empty_writes(now)
                } else {
                    let curr_meta = ThreadMetadata::from_thread(&sorted);
                    proof {
                        assert(strictly_ascending(curr_meta.posts@)) by {
                            assert forall|i: int, j: int|
                                0 <= i < j < curr_meta.posts@.len() implies curr_meta.posts@[i].spec_no()
                                < curr_meta.posts@[j].spec_no() by {
                                assert(sorted@[i].spec_no() < sorted@[j].spec_no());
                            }
                        }
                    }
                    let archived = curr_meta.op_data.archived;
                    let prev = self.thread_meta[b].remove(&no);
                    let writes = match prev {
                        None => {
                            let mut w = empty_writes(last_modified);
                            w.insert_posts = sorted;
                            w
                        },
                        Some(prev_meta) => {
                            let changes = reconcile(sorted, &prev_meta, &curr_meta);
                            ThreadWrites {
                                insert_posts: changes.new_posts,
                                update_op: changes.op_data,
                                update_posts: changes.modified_posts,
                                removed_posts: changes.deleted_posts,
                                removed_at: last_modified,
                            }
                        },
                    };
                    if !archived {
                        self.thread_meta[b].insert(no, curr_meta);
                    }
                    writes
                }
            },
            Err(FetchError::NotFound(_)) => {
                if from_archive {
                    empty_writes(now)
                } else {
                    self.thread_meta[b].remove(&no);
                    let mut w = empty_writes(now);
                    w.removed_posts.push((no, RemovedStatus::Deleted));
                    w
                }
            },
            Err(_) => empty_writes(now),
        };
        proof {
            assert forall|bb: Board| bb != board implies #[trigger] self.meta(bb) == old(self).meta(bb) by {
                lemma_index_injective(bb);
                lemma_index_injective(board);
            }
        }
        writes
    }
}

} // verus!
