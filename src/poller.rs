//! Change detection over a board's thread index.
//!
//! Each poll of a board yields its index: the threads in bump order, each with the time of its
//! last modification. Comparing the index with the one of the previous poll classifies every
//! thread that changed as new, modified, bumped off or deleted.

use vstd::prelude::*;

use crate::board::{lemma_index_injective, Board, BOARD_COUNT};
use crate::order::{
    ascending, distinct_nos, has_no, lemma_distinct_at, lemma_strictly_ascending, lemma_sort_contains, lemma_sort_distinct, lemma_sort_members,
    lemma_sort_ascending_fixed, no_repeats, sort_by_no, sorted_by_no, strictly_ascending, Numbered,
};

verus! {

/// An entry of a board's thread index.
#[derive(Clone, Copy, Debug, PartialEq, Eq, Structural)]
pub struct Thread {
    /// The number of the thread's opening post.
    pub no: u64,
    /// When the thread last changed, in seconds.
    pub last_modified: u64,
    /// The thread's position in the index; 0 is the most recently bumped.
    pub bump_index: usize,
}

impl Numbered for Thread {
    open spec fn spec_no(&self) -> u64 {
        self.no
    }

    fn no(&self) -> (r: u64) {
        self.no
    }
}

/// What happened to a thread between two polls of its board.
#[derive(Clone, Copy, Debug, PartialEq, Eq, Structural)]
pub enum ThreadUpdate {
    New(u64),
    Modified(u64),
    BumpedOff(u64),
    Deleted(u64),
}

impl ThreadUpdate {
    /// The number of the thread that the update is about.
    pub open spec fn spec_no(self) -> u64 {
        match self {
            ThreadUpdate::New(n) => n,
            ThreadUpdate::Modified(n) => n,
            ThreadUpdate::BumpedOff(n) => n,
            ThreadUpdate::Deleted(n) => n,
        }
    }

    /// The number of the thread that the update is about.
    pub fn no(&self) -> (r: u64)
        ensures
            r == self.spec_no(),
    {
        match self {
            ThreadUpdate::New(n) => *n,
            ThreadUpdate::Modified(n) => *n,
            ThreadUpdate::BumpedOff(n) => *n,
            ThreadUpdate::Deleted(n) => *n,
        }
    }
}

/// `c` was in the previous index with an older modification time.
pub open spec fn was_modified(prev: Seq<Thread>, c: Thread) -> bool {
    exists|i: int|
        0 <= i < prev.len() && prev[i].no == c.no && prev[i].last_modified < c.last_modified
}

/// `c` was in the previous index with a newer modification time: the index went back in time.
pub open spec fn went_back(prev: Seq<Thread>, c: Thread) -> bool {
    exists|i: int|
        0 <= i < prev.len() && prev[i].no == c.no && prev[i].last_modified > c.last_modified
}

/// `c` was not in the previous index although a later thread was: an old thread reappeared.
pub open spec fn reappeared(prev: Seq<Thread>, c: Thread) -> bool {
    !has_no(prev, c.no) && exists|i: int| 0 <= i < prev.len() && prev[i].no > c.no
}

/// The two indexes can follow one another: no thread is listed twice, none went back in time,
/// and no thread appeared that is older than one already seen.
pub open spec fn consistent(prev: Seq<Thread>, curr: Seq<Thread>) -> bool {
    &&& distinct_nos(prev)
    &&& distinct_nos(curr)
    &&& forall|j: int|
        0 <= j < curr.len() ==> !went_back(prev, #[trigger] curr[j]) && !reappeared(prev, curr[j])
}

/// What `f` picks from each thread of `cs`, in the order of `cs`.
pub open spec fn select(cs: Seq<Thread>, f: spec_fn(Thread) -> Option<ThreadUpdate>) -> Seq<
    ThreadUpdate,
>
    decreases cs.len(),
{
    if cs.len() == 0 {
        Seq::empty()
    } else {
        let rest = select(cs.drop_last(), f);
        match f(cs.last()) {
            Some(u) => rest.push(u),
            None => rest,
        }
    }
}

/// `Modified` for each thread of `cs`, in its order, that was modified since the previous index.
pub open spec fn modified_updates(prev: Seq<Thread>, cs: Seq<Thread>) -> Seq<ThreadUpdate> {
    select(cs, pick_modified(prev))
}

/// `Modified` for a thread that was modified since the previous index.
pub open spec fn pick_modified(prev: Seq<Thread>) -> spec_fn(Thread) -> Option<ThreadUpdate> {
    |c: Thread|
        if was_modified(prev, c) {
            Some(ThreadUpdate::Modified(c.no))
        } else {
            None
        }
}

/// `New` for each thread of `cs`, in its order, that the previous index did not hold.
pub open spec fn new_updates(prev: Seq<Thread>, cs: Seq<Thread>) -> Seq<ThreadUpdate> {
    select(cs, pick_new(prev))
}

/// `New` for a thread that the previous index did not hold.
pub open spec fn pick_new(prev: Seq<Thread>) -> spec_fn(Thread) -> Option<ThreadUpdate> {
    |c: Thread|
        if !has_no(prev, c.no) {
            Some(ThreadUpdate::New(c.no))
        } else {
            None
        }
}

/// The anchor: the last thread of the current index, where it was already in the previous index
/// with the same modification time. Its value is the bump index that it had there.
pub open spec fn anchor_bump_index(prev: Seq<Thread>, curr: Seq<Thread>) -> Option<usize> {
    if curr.len() > 0 && exists|i: int|
        0 <= i < prev.len() && prev[i].no == curr.last().no && prev[i].last_modified
            == curr.last().last_modified {
        let i = choose|i: int|
            0 <= i < prev.len() && prev[i].no == curr.last().no && prev[i].last_modified
                == curr.last().last_modified;
        Some(prev[i].bump_index)
    } else {
        None
    }
}

/// How the removal of `p` is classified. An empty current index deletes everything; otherwise a
/// thread that stood before the anchor was deleted, and any other was bumped off.
pub open spec fn removal_update(p: Thread, anchor: Option<usize>, curr_empty: bool) -> ThreadUpdate {
    if curr_empty {
        ThreadUpdate::Deleted(p.no)
    } else {
        match anchor {
            Some(k) => if p.bump_index < k {
                ThreadUpdate::Deleted(p.no)
            } else {
                ThreadUpdate::BumpedOff(p.no)
            },
            None => ThreadUpdate::BumpedOff(p.no),
        }
    }
}

/// The removal of each thread of `ps`, in its order, that the current index no longer holds.
pub open spec fn removal_updates(ps: Seq<Thread>, curr: Seq<Thread>, anchor: Option<usize>) -> Seq<
    ThreadUpdate,
> {
    select(ps, pick_removed(curr, anchor))
}

/// The removal of a thread that the current index no longer holds.
pub open spec fn pick_removed(curr: Seq<Thread>, anchor: Option<usize>) -> spec_fn(Thread) -> Option<
    ThreadUpdate,
> {
    |p: Thread|
        if !has_no(curr, p.no) {
            Some(removal_update(p, anchor, curr.len() == 0))
        } else {
            None
        }
}

/// The updates between two indexes, or `None` where the current one cannot follow the previous
/// one and the poll is discarded: modified threads, then new ones, both in ascending order of
/// number, then the removed threads in ascending order of number.
pub open spec fn classified(prev: Seq<Thread>, curr: Seq<Thread>) -> Option<Seq<ThreadUpdate>> {
    if consistent(prev, curr) {
        let sc = sort_by_no(curr);
        Some(
            modified_updates(prev, sc) + new_updates(prev, sc) + removal_updates(
                sort_by_no(prev),
                curr,
                anchor_bump_index(prev, curr),
            ),
        )
    } else {
        None
    }
}

/// Two indexes with the same entries give the same answers about any thread.
proof fn lemma_same_members(a: Seq<Thread>, b: Seq<Thread>, c: Thread)
    requires
        forall|x: Thread| a.contains(x) <==> b.contains(x),
    ensures
        was_modified(a, c) == was_modified(b, c),
        went_back(a, c) == went_back(b, c),
        has_no(a, c.no) == has_no(b, c.no),
        reappeared(a, c) == reappeared(b, c),
{
    if was_modified(a, c) {
        let i = choose|i: int|
            0 <= i < a.len() && a[i].no == c.no && a[i].last_modified < c.last_modified;
        assert(a.contains(a[i]));
        let k = choose|k: int| 0 <= k < b.len() && b[k] == a[i];
    }
    if was_modified(b, c) {
        let i = choose|i: int|
            0 <= i < b.len() && b[i].no == c.no && b[i].last_modified < c.last_modified;
        assert(b.contains(b[i]));
        let k = choose|k: int| 0 <= k < a.len() && a[k] == b[i];
    }
    if went_back(a, c) {
        let i = choose|i: int|
            0 <= i < a.len() && a[i].no == c.no && a[i].last_modified > c.last_modified;
        assert(a.contains(a[i]));
        let k = choose|k: int| 0 <= k < b.len() && b[k] == a[i];
    }
    if went_back(b, c) {
        let i = choose|i: int|
            0 <= i < b.len() && b[i].no == c.no && b[i].last_modified > c.last_modified;
        assert(b.contains(b[i]));
        let k = choose|k: int| 0 <= k < a.len() && a[k] == b[i];
    }
    if has_no(a, c.no) {
        let i = choose|i: int| 0 <= i < a.len() && a[i].spec_no() == c.no;
        assert(a.contains(a[i]));
        let k = choose|k: int| 0 <= k < b.len() && b[k] == a[i];
        assert(b[k].spec_no() == c.no);
    }
    if has_no(b, c.no) {
        let i = choose|i: int| 0 <= i < b.len() && b[i].spec_no() == c.no;
        assert(b.contains(b[i]));
        let k = choose|k: int| 0 <= k < a.len() && a[k] == b[i];
        assert(a[k].spec_no() == c.no);
    }
    if exists|i: int| 0 <= i < a.len() && a[i].no > c.no {
        let i = choose|i: int| 0 <= i < a.len() && a[i].no > c.no;
        assert(a.contains(a[i]));
        let k = choose|k: int| 0 <= k < b.len() && b[k] == a[i];
    }
    if exists|i: int| 0 <= i < b.len() && b[i].no > c.no {
        let i = choose|i: int| 0 <= i < b.len() && b[i].no > c.no;
        assert(b.contains(b[i]));
        let k = choose|k: int| 0 <= k < a.len() && a[k] == b[i];
    }
}

proof fn lemma_updates_same_members(a: Seq<Thread>, b: Seq<Thread>, cs: Seq<Thread>)
    requires
        forall|x: Thread| a.contains(x) <==> b.contains(x),
    ensures
        modified_updates(a, cs) == modified_updates(b, cs),
        new_updates(a, cs) == new_updates(b, cs),
    decreases cs.len(),
{
    if cs.len() > 0 {
        lemma_updates_same_members(a, b, cs.drop_last());
        lemma_same_members(a, b, cs.last());
    }
}

proof fn lemma_removals_same_members(
    ps: Seq<Thread>,
    a: Seq<Thread>,
    b: Seq<Thread>,
    anchor: Option<usize>,
)
    requires
        forall|x: Thread| a.contains(x) <==> b.contains(x),
        a.len() == b.len(),
    ensures
        removal_updates(ps, a, anchor) == removal_updates(ps, b, anchor),
    decreases ps.len(),
{
    if ps.len() > 0 {
        lemma_removals_same_members(ps.drop_last(), a, b, anchor);
        lemma_same_members(a, b, ps.last());
    }
}

/// `f` keeps the number of each thread that it picks.
pub open spec fn keeps_no(f: spec_fn(Thread) -> Option<ThreadUpdate>) -> bool {
    forall|t: Thread| #[trigger] f(t) is Some ==> f(t)->0.spec_no() == t.no
}

/// What `select` picks comes from its input, everything picked is there, and the order of
/// numbers is kept.
pub proof fn lemma_select(cs: Seq<Thread>, f: spec_fn(Thread) -> Option<ThreadUpdate>)
    requires
        keeps_no(f),
    ensures
        forall|k: int|
            0 <= k < select(cs, f).len() ==> exists|j: int|
                0 <= j < cs.len() && f(cs[j]) == Some(#[trigger] select(cs, f)[k]),
        forall|j: int|
            0 <= j < cs.len() && #[trigger] f(cs[j]) is Some ==> select(cs, f).contains(
                f(cs[j])->0,
            ),
        strictly_ascending(cs) ==> forall|k1: int, k2: int|
            0 <= k1 < k2 < select(cs, f).len() ==> select(cs, f)[k1].spec_no() < select(
                cs,
                f,
            )[k2].spec_no(),
    decreases cs.len(),
{
    if cs.len() > 0 {
        let d = cs.drop_last();
        let r = select(d, f);
        let u = select(cs, f);
        let last = cs.last();
        lemma_select(d, f);
        assert forall|k: int| 0 <= k < u.len() implies exists|j: int|
            0 <= j < cs.len() && f(cs[j]) == Some(#[trigger] u[k]) by {
            if k < r.len() {
                assert(u[k] == r[k]);
                let j = choose|j: int| 0 <= j < d.len() && f(d[j]) == Some(r[k]);
                assert(cs[j] == d[j]);
            } else {
                assert(f(cs[cs.len() - 1]) == Some(u[k]));
            }
        }
        assert forall|j: int| 0 <= j < cs.len() && #[trigger] f(cs[j]) is Some implies u.contains(
            f(cs[j])->0,
        ) by {
            if j < d.len() {
                assert(cs[j] == d[j]);
                assert(r.contains(f(d[j])->0));
                let k = choose|k: int| 0 <= k < r.len() && r[k] == f(d[j])->0;
                assert(u[k] == r[k]);
            } else {
                assert(u[u.len() - 1] == f(last)->0);
            }
        }
        if strictly_ascending(cs) {
            assert(strictly_ascending(d));
            assert forall|k1: int, k2: int| 0 <= k1 < k2 < u.len() implies u[k1].spec_no()
                < u[k2].spec_no() by {
                if k2 < r.len() {
                    assert(u[k1] == r[k1] && u[k2] == r[k2]);
                } else {
                    assert(u[k1] == r[k1]);
                    let j = choose|j: int| 0 <= j < d.len() && f(d[j]) == Some(r[k1]);
                    assert(f(d[j]) is Some);
                    assert(cs[j] == d[j]);
                    assert(f(last) is Some);
                }
            }
        }
    }
}

/// The updates of an accepted poll.
pub open spec fn poll_updates(prev: Seq<Thread>, curr: Seq<Thread>) -> Seq<ThreadUpdate> {
    classified(prev, curr)->0
}

proof fn lemma_pickers_keep_no(prev: Seq<Thread>, curr: Seq<Thread>, anchor: Option<usize>)
    ensures
        keeps_no(pick_modified(prev)),
        keeps_no(pick_new(prev)),
        keeps_no(pick_removed(curr, anchor)),
{
}

/// Where each update of an accepted poll comes from.
pub proof fn lemma_update_origin(prev: Seq<Thread>, curr: Seq<Thread>, k: int)
    requires
        classified(prev, curr) is Some,
        0 <= k < poll_updates(prev, curr).len(),
    ensures
        ({
            let u = poll_updates(prev, curr)[k];
            let n = u.spec_no();
            ||| (u == ThreadUpdate::Modified(n) && exists|j: int|
                0 <= j < curr.len() && curr[j].no == n && was_modified(prev, curr[j]))
            ||| (u == ThreadUpdate::New(n) && !has_no(prev, n) && has_no(curr, n))
            ||| (exists|i: int|
                0 <= i < prev.len() && prev[i].no == n && !has_no(curr, n) && u == removal_update(
                    prev[i],
                    anchor_bump_index(prev, curr),
                    curr.len() == 0,
                ))
        }),
{
    let sp = sort_by_no(prev);
    let sc = sort_by_no(curr);
    let a = anchor_bump_index(prev, curr);
    let m = modified_updates(prev, sc);
    let nw = new_updates(prev, sc);
    let r = removal_updates(sp, curr, a);
    let u = poll_updates(prev, curr);
    lemma_sort_contains(prev);
    lemma_sort_contains(curr);
    lemma_sort_distinct(curr);
    lemma_pickers_keep_no(prev, curr, a);
    lemma_select(sc, pick_modified(prev));
    lemma_select(sc, pick_new(prev));
    lemma_select(sp, pick_removed(curr, a));
    if k < m.len() {
        assert(u[k] == m[k]);
        let j = choose|j: int| 0 <= j < sc.len() && pick_modified(prev)(sc[j]) == Some(m[k]);
        assert(sc.contains(sc[j]));
        assert(curr.contains(sc[j]));
        let i = choose|i: int| 0 <= i < curr.len() && curr[i] == sc[j];
        assert(curr[i].no == u[k].spec_no() && was_modified(prev, curr[i]));
    } else if k < m.len() + nw.len() {
        assert(u[k] == nw[k - m.len()]);
        let j = choose|j: int|
            0 <= j < sc.len() && pick_new(prev)(sc[j]) == Some(nw[k - m.len()]);
        assert(sc[j].spec_no() == sc[j].no);
        assert(has_no(sc, sc[j].no));
    } else {
        let kk = k - m.len() - nw.len();
        assert(u[k] == r[kk]);
        let j = choose|j: int| 0 <= j < sp.len() && pick_removed(curr, a)(sp[j]) == Some(r[kk]);
        assert(sp.contains(sp[j]));
        assert(prev.contains(sp[j]));
        let i = choose|i: int| 0 <= i < prev.len() && prev[i] == sp[j];
    }
}

/// Each change between two indexes that an accepted poll finds is among its updates.
pub proof fn lemma_update_presence(prev: Seq<Thread>, curr: Seq<Thread>)
    requires
        classified(prev, curr) is Some,
    ensures
        forall|j: int|
            0 <= j < curr.len() && was_modified(prev, #[trigger] curr[j]) ==> poll_updates(
                prev,
                curr,
            ).contains(ThreadUpdate::Modified(curr[j].no)),
        forall|j: int|
            0 <= j < curr.len() && !has_no(prev, #[trigger] curr[j].no) ==> poll_updates(
                prev,
                curr,
            ).contains(ThreadUpdate::New(curr[j].no)),
        forall|i: int|
            0 <= i < prev.len() && !has_no(curr, #[trigger] prev[i].no) ==> poll_updates(
                prev,
                curr,
            ).contains(
                removal_update(prev[i], anchor_bump_index(prev, curr), curr.len() == 0),
            ),
{
    let sp = sort_by_no(prev);
    let sc = sort_by_no(curr);
    let a = anchor_bump_index(prev, curr);
    let m = modified_updates(prev, sc);
    let nw = new_updates(prev, sc);
    let r = removal_updates(sp, curr, a);
    let u = poll_updates(prev, curr);
    lemma_sort_contains(prev);
    lemma_sort_contains(curr);
    lemma_pickers_keep_no(prev, curr, a);
    lemma_select(sc, pick_modified(prev));
    lemma_select(sc, pick_new(prev));
    lemma_select(sp, pick_removed(curr, a));
    assert forall|j: int|
        0 <= j < curr.len() && was_modified(prev, #[trigger] curr[j]) implies u.contains(
        ThreadUpdate::Modified(curr[j].no),
    ) by {
        assert(curr.contains(curr[j]));
        assert(sc.contains(curr[j]));
        let jj = choose|jj: int| 0 <= jj < sc.len() && sc[jj] == curr[j];
        assert(pick_modified(prev)(sc[jj]) is Some);
        let k = choose|k: int| 0 <= k < m.len() && m[k] == ThreadUpdate::Modified(curr[j].no);
        assert(u[k] == m[k]);
    }
    assert forall|j: int|
        0 <= j < curr.len() && !has_no(prev, #[trigger] curr[j].no) implies u.contains(
        ThreadUpdate::New(curr[j].no),
    ) by {
        assert(curr.contains(curr[j]));
        assert(sc.contains(curr[j]));
        let jj = choose|jj: int| 0 <= jj < sc.len() && sc[jj] == curr[j];
        assert(pick_new(prev)(sc[jj]) is Some);
        let k = choose|k: int| 0 <= k < nw.len() && nw[k] == ThreadUpdate::New(curr[j].no);
        assert(u[m.len() + k] == nw[k]);
    }
    assert forall|i: int|
        0 <= i < prev.len() && !has_no(curr, #[trigger] prev[i].no) implies u.contains(
        removal_update(prev[i], a, curr.len() == 0),
    ) by {
        assert(prev.contains(prev[i]));
        assert(sp.contains(prev[i]));
        let jj = choose|jj: int| 0 <= jj < sp.len() && sp[jj] == prev[i];
        assert(pick_removed(curr, a)(sp[jj]) is Some);
        let k = choose|k: int|
            0 <= k < r.len() && r[k] == removal_update(prev[i], a, curr.len() == 0);
        assert(u[m.len() + nw.len() + k] == r[k]);
    }
}

/// Some update of `u` is about thread `n`.
pub open spec fn reports(u: Seq<ThreadUpdate>, n: u64) -> bool {
    exists|k: int| 0 <= k < u.len() && #[trigger] u[k].spec_no() == n
}

/// Thread `n` stands in one of the two indexes but not in the other, or it stands in both and
/// was modified.
pub open spec fn changed(prev: Seq<Thread>, curr: Seq<Thread>, n: u64) -> bool {
    ||| has_no(prev, n) != has_no(curr, n)
    ||| exists|j: int| 0 <= j < curr.len() && curr[j].no == n && was_modified(prev, curr[j])
}

/// An accepted poll reports each thread at most once, and the threads it reports are exactly
/// those that stand in one index and not in the other, with those that were modified.
pub proof fn lemma_each_change_reported_once(prev: Seq<Thread>, curr: Seq<Thread>)
    requires
        classified(prev, curr) is Some,
    ensures
        classified(prev, curr) is Some,
        forall|k1: int, k2: int|
            0 <= k1 < k2 < poll_updates(prev, curr).len() ==> poll_updates(prev, curr)[k1].spec_no()
                != poll_updates(prev, curr)[k2].spec_no(),
        forall|n: u64| reports(poll_updates(prev, curr), n) <==> changed(prev, curr, n),
{
    let sp = sort_by_no(prev);
    let sc = sort_by_no(curr);
    let a = anchor_bump_index(prev, curr);
    let m = modified_updates(prev, sc);
    let nw = new_updates(prev, sc);
    let r = removal_updates(sp, curr, a);
    let u = poll_updates(prev, curr);
    lemma_sort_members(prev);
    lemma_sort_members(curr);
    lemma_sort_contains(prev);
    lemma_sort_contains(curr);
    lemma_sort_distinct(prev);
    lemma_sort_distinct(curr);
    lemma_strictly_ascending(sp);
    lemma_strictly_ascending(sc);
    lemma_pickers_keep_no(prev, curr, a);
    lemma_select(sc, pick_modified(prev));
    lemma_select(sc, pick_new(prev));
    lemma_select(sp, pick_removed(curr, a));
    lemma_update_presence(prev, curr);
    assert forall|k1: int, k2: int| 0 <= k1 < k2 < u.len() implies u[k1].spec_no()
        != u[k2].spec_no() by {
        lemma_update_origin(prev, curr, k1);
        lemma_update_origin(prev, curr, k2);
        if k2 < m.len() {
            assert(u[k1] == m[k1] && u[k2] == m[k2]);
        } else if m.len() <= k1 && k2 < m.len() + nw.len() {
            assert(u[k1] == nw[k1 - m.len()] && u[k2] == nw[k2 - m.len()]);
        } else if m.len() + nw.len() <= k1 {
            assert(u[k1] == r[k1 - m.len() - nw.len()] && u[k2] == r[k2 - m.len() - nw.len()]);
        } else if k1 < m.len() {
            let j = choose|j: int| 0 <= j < sc.len() && pick_modified(prev)(sc[j]) == Some(m[k1]);
            assert(u[k1] == m[k1]);
            assert(has_no(prev, sc[j].no)) by {
                let i = choose|i: int|
                    0 <= i < prev.len() && prev[i].no == sc[j].no && prev[i].last_modified
                        < sc[j].last_modified;
                assert(prev[i].spec_no() == sc[j].no);
            }
            assert(has_no(sc, sc[j].no)) by {
                assert(sc[j].spec_no() == sc[j].no);
            }
            if k2 < m.len() + nw.len() {
                let j2 = choose|j2: int|
                    0 <= j2 < sc.len() && pick_new(prev)(sc[j2]) == Some(nw[k2 - m.len()]);
                assert(u[k2] == nw[k2 - m.len()]);
            } else {
                let j2 = choose|j2: int|
                    0 <= j2 < sp.len() && pick_removed(curr, a)(sp[j2]) == Some(
                        r[k2 - m.len() - nw.len()],
                    );
                assert(u[k2] == r[k2 - m.len() - nw.len()]);
            }
        } else {
            let j = choose|j: int|
                0 <= j < sc.len() && pick_new(prev)(sc[j]) == Some(nw[k1 - m.len()]);
            assert(u[k1] == nw[k1 - m.len()]);
            assert(has_no(sc, sc[j].no)) by {
                assert(sc[j].spec_no() == sc[j].no);
            }
            let j2 = choose|j2: int|
                0 <= j2 < sp.len() && pick_removed(curr, a)(sp[j2]) == Some(
                    r[k2 - m.len() - nw.len()],
                );
            assert(u[k2] == r[k2 - m.len() - nw.len()]);
        }
    }
    assert forall|n: u64| reports(u, n) <==> changed(prev, curr, n) by {
        if reports(u, n) {
            let k = choose|k: int| 0 <= k < u.len() && #[trigger] u[k].spec_no() == n;
            lemma_update_origin(prev, curr, k);
        }
        if changed(prev, curr, n) {
            if has_no(prev, n) && !has_no(curr, n) {
                let i = choose|i: int| 0 <= i < prev.len() && prev[i].spec_no() == n;
                let x = removal_update(prev[i], a, curr.len() == 0);
                let k = choose|k: int| 0 <= k < u.len() && u[k] == x;
                assert(u[k].spec_no() == n);
            } else if !has_no(prev, n) && has_no(curr, n) {
                let j = choose|j: int| 0 <= j < curr.len() && curr[j].spec_no() == n;
                let k = choose|k: int| 0 <= k < u.len() && u[k] == ThreadUpdate::New(curr[j].no);
                assert(u[k].spec_no() == n);
            } else {
                let j = choose|j: int|
                    0 <= j < curr.len() && curr[j].no == n && was_modified(prev, curr[j]);
                let k = choose|k: int|
                    0 <= k < u.len() && u[k] == ThreadUpdate::Modified(curr[j].no);
                assert(u[k].spec_no() == n);
            }
        }
    }
}

/// Against an empty previous index, every thread of the current index is new.
pub proof fn lemma_first_poll_all_new(curr: Seq<Thread>)
    requires
        distinct_nos(curr),
    ensures
        classified(Seq::empty(), curr) is Some,
        forall|k: int|
            0 <= k < poll_updates(Seq::empty(), curr).len() ==> #[trigger] poll_updates(
                Seq::empty(),
                curr,
            )[k] is New,
        forall|n: u64| reports(poll_updates(Seq::empty(), curr), n) <==> has_no(curr, n),
{
    let prev = Seq::<Thread>::empty();
    assert(consistent(prev, curr));
    lemma_each_change_reported_once(prev, curr);
    assert forall|k: int| 0 <= k < poll_updates(prev, curr).len() implies #[trigger] poll_updates(
        prev,
        curr,
    )[k] is New by {
        lemma_update_origin(prev, curr, k);
    }
    assert forall|n: u64| reports(poll_updates(prev, curr), n) <==> has_no(curr, n) by {
        assert(changed(prev, curr, n) <==> has_no(curr, n));
    }
}

/// Against an empty current index, every thread of the previous index was deleted.
pub proof fn lemma_empty_index_all_deleted(prev: Seq<Thread>)
    requires
        distinct_nos(prev),
    ensures
        classified(prev, Seq::empty()) is Some,
        forall|k: int|
            0 <= k < poll_updates(prev, Seq::empty()).len() ==> #[trigger] poll_updates(
                prev,
                Seq::empty(),
            )[k] is Deleted,
        forall|n: u64| reports(poll_updates(prev, Seq::empty()), n) <==> has_no(prev, n),
{
    let curr = Seq::<Thread>::empty();
    assert(consistent(prev, curr));
    lemma_each_change_reported_once(prev, curr);
    assert forall|k: int| 0 <= k < poll_updates(prev, curr).len() implies #[trigger] poll_updates(
        prev,
        curr,
    )[k] is Deleted by {
        lemma_update_origin(prev, curr, k);
    }
    assert forall|n: u64| reports(poll_updates(prev, curr), n) <==> has_no(prev, n) by {
        assert(changed(prev, curr, n) <==> has_no(prev, n));
    }
}

/// With an anchor at bump index `k`, a removed thread that stood before it was deleted, and one
/// that stood at or after it was bumped off.
pub proof fn lemma_anchor_splits_removals(prev: Seq<Thread>, curr: Seq<Thread>, k: usize)
    requires
        classified(prev, curr) is Some,
        anchor_bump_index(prev, curr) == Some(k),
    ensures
        forall|i: int|
            0 <= i < prev.len() && !has_no(curr, #[trigger] prev[i].no) ==> poll_updates(
                prev,
                curr,
            ).contains(
                if prev[i].bump_index < k {
                    ThreadUpdate::Deleted(prev[i].no)
                } else {
                    ThreadUpdate::BumpedOff(prev[i].no)
                },
            ),
        forall|i: int, j: int|
            0 <= i < prev.len() && !has_no(curr, prev[i].no) && 0 <= j < poll_updates(
                prev,
                curr,
            ).len() && #[trigger] poll_updates(prev, curr)[j].spec_no() == #[trigger] prev[i].no
                ==> poll_updates(prev, curr)[j] == (if prev[i].bump_index < k {
                ThreadUpdate::Deleted(prev[i].no)
            } else {
                ThreadUpdate::BumpedOff(prev[i].no)
            }),
{
    lemma_update_presence(prev, curr);
    lemma_each_change_reported_once(prev, curr);
    let u = poll_updates(prev, curr);
    assert forall|i: int, j: int|
        0 <= i < prev.len() && !has_no(curr, prev[i].no) && 0 <= j < u.len() && #[trigger] u[j].spec_no()
            == #[trigger] prev[i].no implies u[j] == (if prev[i].bump_index < k {
        ThreadUpdate::Deleted(prev[i].no)
    } else {
        ThreadUpdate::BumpedOff(prev[i].no)
    }) by {
        let x = if prev[i].bump_index < k {
            ThreadUpdate::Deleted(prev[i].no)
        } else {
            ThreadUpdate::BumpedOff(prev[i].no)
        };
        assert(u.contains(x));
        let m = choose|m: int| 0 <= m < u.len() && u[m] == x;
        if m < j {
            assert(u[m].spec_no() != u[j].spec_no());
        } else if j < m {
            assert(u[j].spec_no() != u[m].spec_no());
        }
    }
}

/// Without an anchor, every removed thread of a non-empty current index was bumped off, and no
/// thread is reported deleted.
pub proof fn lemma_no_anchor_all_bumped_off(prev: Seq<Thread>, curr: Seq<Thread>)
    requires
        classified(prev, curr) is Some,
        curr.len() > 0,
        anchor_bump_index(prev, curr) is None,
    ensures
        forall|i: int|
            0 <= i < prev.len() && !has_no(curr, #[trigger] prev[i].no) ==> poll_updates(
                prev,
                curr,
            ).contains(ThreadUpdate::BumpedOff(prev[i].no)),
        forall|k: int|
            0 <= k < poll_updates(prev, curr).len() ==> !(#[trigger] poll_updates(prev, curr)[k] is Deleted),
{
    lemma_update_presence(prev, curr);
    assert forall|k: int| 0 <= k < poll_updates(prev, curr).len() implies !(#[trigger] poll_updates(
        prev,
        curr,
    )[k] is Deleted) by {
        lemma_update_origin(prev, curr, k);
    }
}

/// Classification depends on the previous index as a set of entries, not on its order: the
/// poller may keep it sorted and feed it again, and gets the same updates.
pub proof fn lemma_previous_order_irrelevant(prev: Seq<Thread>, curr: Seq<Thread>)
    ensures
        classified(sort_by_no(prev), curr) == classified(prev, curr),
{
    let sp = sort_by_no(prev);
    lemma_sort_members(prev);
    lemma_sort_contains(prev);
    lemma_sort_distinct(prev);
    lemma_sort_ascending_fixed(sp);
    assert forall|x: Thread| sp.contains(x) <==> prev.contains(x) by {}
    assert forall|j: int| 0 <= j < curr.len() implies (!went_back(sp, #[trigger] curr[j])
        && !reappeared(sp, curr[j])) == (!went_back(prev, curr[j]) && !reappeared(prev, curr[j])) by {
        lemma_same_members(sp, prev, curr[j]);
    }
    assert(consistent(sp, curr) == consistent(prev, curr));
    if consistent(prev, curr) {
        lemma_updates_same_members(sp, prev, sort_by_no(curr));
        if curr.len() > 0 {
            let last = curr.last();
            let ep = exists|i: int|
                0 <= i < prev.len() && prev[i].no == last.no && prev[i].last_modified
                    == last.last_modified;
            let es = exists|i: int|
                0 <= i < sp.len() && sp[i].no == last.no && sp[i].last_modified
                    == last.last_modified;
            if es {
                let i1 = choose|i: int|
                    0 <= i < sp.len() && sp[i].no == last.no && sp[i].last_modified
                        == last.last_modified;
                assert(sp.contains(sp[i1]));
                let k = choose|k: int| 0 <= k < prev.len() && prev[k] == sp[i1];
                assert(ep);
                let i2 = choose|i: int|
                    0 <= i < prev.len() && prev[i].no == last.no && prev[i].last_modified
                        == last.last_modified;
                if k != i2 {
                    lemma_distinct_at(prev, k, i2);
                }
                assert(anchor_bump_index(sp, curr) == anchor_bump_index(prev, curr));
            }
            if ep {
                let i2 = choose|i: int|
                    0 <= i < prev.len() && prev[i].no == last.no && prev[i].last_modified
                        == last.last_modified;
                assert(prev.contains(prev[i2]));
                let k = choose|k: int| 0 <= k < sp.len() && sp[k] == prev[i2];
                assert(es);
            }
        }
    }
}

/// The modified and the new threads of `sc` against `sp`, or `None` where a thread of `sc` went
/// back in time or reappeared.
fn changed_threads(sp: &Vec<Thread>, sc: &Vec<Thread>) -> (r: Option<
    (Vec<ThreadUpdate>, Vec<ThreadUpdate>),
>)
    requires
        strictly_ascending(sp@),
        strictly_ascending(sc@),
    ensures
        match r {
            Some((m, n)) => {
                &&& forall|j: int|
                    0 <= j < sc@.len() ==> !went_back(sp@, #[trigger] sc@[j]) && !reappeared(
                        sp@,
                        sc@[j],
                    )
                &&& m@ == modified_updates(sp@, sc@)
                &&& n@ == new_updates(sp@, sc@)
            },
            None => exists|j: int|
                0 <= j < sc@.len() && (went_back(sp@, #[trigger] sc@[j]) || reappeared(
                    sp@,
                    sc@[j],
                )),
        },
{
    let mut modified: Vec<ThreadUpdate> = Vec::new();
    let mut new: Vec<ThreadUpdate> = Vec::new();
    let mut i: usize = 0;
    let mut j: usize = 0;
    while j < sc.len()
        invariant
            i <= sp@.len(),
            j <= sc@.len(),
            strictly_ascending(sp@),
            strictly_ascending(sc@),
            forall|k: int| 0 <= k < i && j < sc@.len() ==> sp@[k].no < sc@[j as int].no,
            forall|k: int, jj: int| i <= k < sp@.len() && 0 <= jj < j ==> sp@[k].no > sc@[jj].no,
            forall|jj: int|
                0 <= jj < j ==> !went_back(sp@, #[trigger] sc@[jj]) && !reappeared(sp@, sc@[jj]),
            modified@ == modified_updates(sp@, sc@.take(j as int)),
            new@ == new_updates(sp@, sc@.take(j as int)),
        decreases sc@.len() - j,
    {
        let c = sc[j];
        while i < sp.len() && sp[i].no < c.no
            invariant
                i <= sp@.len(),
                j < sc@.len(),
                c == sc@[j as int],
                strictly_ascending(sp@),
                strictly_ascending(sc@),
                forall|k: int| 0 <= k < i ==> sp@[k].no < c.no,
                forall|k: int, jj: int|
                    i <= k < sp@.len() && 0 <= jj < j ==> sp@[k].no > sc@[jj].no,
            decreases sp@.len() - i,
        {
            i = i + 1;
        }
        assert(sc@.take(j + 1).drop_last() =~= sc@.take(j as int));
        assert(sc@.take(j + 1).last() == c);
        if i < sp.len() && sp[i].no == c.no {
            let p = sp[i];
            assert(has_no(sp@, c.no)) by {
                assert(sp@[i as int].spec_no() == c.no);
            }
            if p.last_modified > c.last_modified {
                assert(went_back(sp@, sc@[j as int]));
                return None;
            }
            assert(!went_back(sp@, c)) by {
                if went_back(sp@, c) {
                    let k = choose|k: int|
                        0 <= k < sp@.len() && sp@[k].no == c.no && sp@[k].last_modified
                            > c.last_modified;
                    if k < i {
                    } else if k > i {
                        assert(sp@[i as int].no < sp@[k].no);
                    }
                }
            }
            if p.last_modified < c.last_modified {
                modified.push(ThreadUpdate::Modified(c.no));
            } else {
                assert(!was_modified(sp@, c)) by {
                    if was_modified(sp@, c) {
                        let k = choose|k: int|
                            0 <= k < sp@.len() && sp@[k].no == c.no && sp@[k].last_modified
                                < c.last_modified;
                        if k < i {
                        } else if k > i {
                            assert(sp@[i as int].no < sp@[k].no);
                        }
                    }
                }
            }
            i = i + 1;
        } else {
            assert(!has_no(sp@, c.no)) by {
                if has_no(sp@, c.no) {
                    let k = choose|k: int| 0 <= k < sp@.len() && sp@[k].spec_no() == c.no;
                    if k > i {
                        assert(sp@[i as int].no < sp@[k].no);
                    }
                }
            }
            if i < sp.len() {
                assert(reappeared(sp@, sc@[j as int]));
                return None;
            }
            new.push(ThreadUpdate::New(c.no));
        }
        j = j + 1;
    }
    assert(sc@.take(sc@.len() as int) =~= sc@);
    Some((modified, new))
}

/// The removal updates of the threads of `sp` that `sc` no longer holds.
fn removed_threads(sp: &Vec<Thread>, sc: &Vec<Thread>, anchor: Option<usize>) -> (r: Vec<
    ThreadUpdate,
>)
    requires
        strictly_ascending(sp@),
        strictly_ascending(sc@),
    ensures
        r@ == removal_updates(sp@, sc@, anchor),
{
    let mut out: Vec<ThreadUpdate> = Vec::new();
    let mut j: usize = 0;
    let curr_empty = sc.len() == 0;
    let mut i: usize = 0;
    while i < sp.len()
        invariant
            i <= sp@.len(),
            j <= sc@.len(),
            curr_empty == (sc@.len() == 0),
            strictly_ascending(sp@),
            strictly_ascending(sc@),
            forall|jj: int| 0 <= jj < j && i < sp@.len() ==> sc@[jj].no < sp@[i as int].no,
            out@ == removal_updates(sp@.take(i as int), sc@, anchor),
        decreases sp@.len() - i,
    {
        let p = sp[i];
        while j < sc.len() && sc[j].no < p.no
            invariant
                j <= sc@.len(),
                i < sp@.len(),
                p == sp@[i as int],
                strictly_ascending(sc@),
                forall|jj: int| 0 <= jj < j ==> sc@[jj].no < p.no,
            decreases sc@.len() - j,
        {
            j = j + 1;
        }
        assert(sp@.take(i + 1).drop_last() =~= sp@.take(i as int));
        assert(sp@.take(i + 1).last() == p);
        if j < sc.len() && sc[j].no == p.no {
            assert(has_no(sc@, p.no)) by {
                assert(sc@[j as int].spec_no() == p.no);
            }
        } else {
            assert(!has_no(sc@, p.no)) by {
                if has_no(sc@, p.no) {
                    let k = choose|k: int| 0 <= k < sc@.len() && sc@[k].spec_no() == p.no;
                    if k > j {
                        assert(sc@[j as int].no < sc@[k].no);
                    }
                }
            }
            let u = if curr_empty {
                ThreadUpdate::Deleted(p.no)
            } else {
                match anchor {
                    Some(k) => if p.bump_index < k {
                        ThreadUpdate::Deleted(p.no)
                    } else {
                        ThreadUpdate::BumpedOff(p.no)
                    },
                    None => ThreadUpdate::BumpedOff(p.no),
                }
            };
            out.push(u);
        }
        i = i + 1;
        assert forall|jj: int| 0 <= jj < j && i < sp@.len() implies sc@[jj].no
            < sp@[i as int].no by {
            assert(sp@[i - 1].no < sp@[i as int].no);
        }
    }
    assert(sp@.take(sp@.len() as int) =~= sp@);
    out
}

/// The bump index, in the previous index, of the anchor of the current index.
fn anchor_of(previous: &Vec<Thread>, current: &Vec<Thread>) -> (r: Option<usize>)
    requires
        distinct_nos(previous@),
    ensures
        r == anchor_bump_index(previous@, current@),
{
    if current.len() == 0 {
        return None;
    }
    let last = current[current.len() - 1];
    let mut i: usize = 0;
    while i < previous.len()
        invariant
            i <= previous@.len(),
            distinct_nos(previous@),
            current@.len() > 0,
            last == current@.last(),
            forall|k: int|
                0 <= k < i ==> !(previous@[k].no == last.no && previous@[k].last_modified
                    == last.last_modified),
        decreases previous@.len() - i,
    {
        let p = previous[i];
        if p.no == last.no && p.last_modified == last.last_modified {
            proof {
                let k = choose|k: int|
                    0 <= k < previous@.len() && previous@[k].no == current@.last().no
                        && previous@[k].last_modified == current@.last().last_modified;
                assert(k == i) by {
                    if k != i {
                        lemma_distinct_at(previous@, k, i as int);
                    }
                }
            }
            return Some(p.bump_index);
        }
        i = i + 1;
    }
    None
}

fn copy_threads(v: &Vec<Thread>) -> (r: Vec<Thread>)
    ensures
        r@ == v@,
{
    let mut r: Vec<Thread> = Vec::new();
    let mut i: usize = 0;
    while i < v.len()
        invariant
            i <= v@.len(),
            r@ == v@.take(i as int),
        decreases v@.len() - i,
    {
        r.push(v[i]);
        i = i + 1;
        assert(r@ =~= v@.take(i as int));
    }
    assert(v@.take(i as int) =~= v@);
    r
}

/// Classifies what happened to each thread between the previous and the current index of a
/// board. The current index is in bump order; the previous one may be in any order. `None`
/// means that the current index cannot follow the previous one (a thread went back in time, an
/// old thread reappeared, or a thread is listed twice) and the poll is to be discarded.
pub fn classify(previous: &Vec<Thread>, current: &Vec<Thread>) -> (r: Option<Vec<ThreadUpdate>>)
    ensures
        match r {
            Some(u) => classified(previous@, current@) == Some(u@),
            None => classified(previous@, current@) is None,
        },
{
    let sp = sorted_by_no(copy_threads(previous));
    let sc = sorted_by_no(copy_threads(current));
    proof {
        lemma_sort_members(previous@);
        lemma_sort_members(current@);
        lemma_sort_distinct(previous@);
        lemma_sort_distinct(current@);
        lemma_sort_contains(previous@);
        lemma_sort_contains(current@);
    }
    if !no_repeats(&sp) || !no_repeats(&sc) {
        return None;
    }
    let anchor = anchor_of(previous, current);
    let (mut updates, mut new) = match changed_threads(&sp, &sc) {
        Some(found) => found,
        None => {
            proof {
                let j = choose|j: int|
                    0 <= j < sc@.len() && (went_back(sp@, #[trigger] sc@[j]) || reappeared(
                        sp@,
                        sc@[j],
                    ));
                assert(sc@.contains(sc@[j]));
                assert(current@.contains(sc@[j]));
                let k = choose|k: int| 0 <= k < current@.len() && current@[k] == sc@[j];
                lemma_same_members(sp@, previous@, sc@[j]);
            }
            return None;
        },
    };
    let mut removed = removed_threads(&sp, &sc, anchor);
    proof {
        assert forall|j: int| 0 <= j < current@.len() implies !went_back(
            previous@,
            #[trigger] current@[j],
        ) && !reappeared(previous@, current@[j]) by {
            assert(current@.contains(current@[j]));
            assert(sc@.contains(current@[j]));
            let k = choose|k: int| 0 <= k < sc@.len() && sc@[k] == current@[j];
            lemma_same_members(sp@, previous@, current@[j]);
        }
        lemma_updates_same_members(sp@, previous@, sc@);
        lemma_removals_same_members(sp@, sc@, current@, anchor);
    }
    updates.append(&mut new);
    updates.append(&mut removed);
    Some(updates)
}

/// The state of change detection: the last accepted index of each board, sorted by number.
pub struct BoardPoller {
    threads: Vec<Vec<Thread>>,
}

impl BoardPoller {
    /// The poller holds an index for every board, each in strictly ascending order of number.
    pub closed spec fn well_formed(&self) -> bool {
        &&& self.threads@.len() == BOARD_COUNT
        &&& forall|k: int| 0 <= k < BOARD_COUNT ==> strictly_ascending(#[trigger] self.threads@[k]@)
    }

    /// The last accepted index of a board.
    pub closed spec fn previous(&self, board: Board) -> Seq<Thread> {
        self.threads@[board.spec_index() as int]@
    }

    /// A poller that has seen no index yet.
    pub fn new() -> (r: Self)
        ensures
            r.well_formed(),
            forall|b: Board| #[trigger] r.previous(b) == Seq::<Thread>::empty(),
    {
        let mut threads: Vec<Vec<Thread>> = Vec::new();
        let mut i: usize = 0;
        while i < BOARD_COUNT
            invariant
                i <= BOARD_COUNT,
                threads@.len() == i,
                forall|k: int| 0 <= k < i ==> threads@[k]@ == Seq::<Thread>::empty(),
            decreases BOARD_COUNT - i,
        {
            threads.push(Vec::new());
            i = i + 1;
        }
        let r = BoardPoller { threads };
        assert forall|k: int| 0 <= k < BOARD_COUNT implies strictly_ascending(#[trigger] r.threads@[k]@) by {
            assert(r.threads@[k]@ == Seq::<Thread>::empty());
        }
        assert forall|b: Board| #[trigger] r.previous(b) == Seq::<Thread>::empty() by {
            lemma_index_injective(b);
        }
        r
    }

    /// Takes in a fresh index of `board`, in bump order, and returns the updates since the
    /// previous one. The new index is kept only where the poll is not discarded.
    pub fn update_threads(&mut self, board: Board, current: Vec<Thread>) -> (r: Option<
        Vec<ThreadUpdate>,
    >)
        requires
            old(self).well_formed(),
        ensures
            final(self).well_formed(),
            match r {
                Some(u) => {
                    &&& classified(old(self).previous(board), current@) == Some(u@)
                    &&& final(self).previous(board) == sort_by_no(current@)
                },
                None => {
                    &&& classified(old(self).previous(board), current@) is None
                    &&& final(self).previous(board) == old(self).previous(board)
                },
            },
            forall|b: Board| b != board ==> #[trigger] final(self).previous(b) == old(self).previous(b),
    {
        let i = board.index();
        let r = classify(&self.threads[i], &current);
        if r.is_some() {
            proof {
                lemma_sort_members(current@);
                lemma_sort_distinct(current@);
                lemma_strictly_ascending(sort_by_no(current@));
            }
            let sorted = sorted_by_no(current);
            self.threads.set(i, sorted);
        }
        proof {
            assert forall|k: int| 0 <= k < BOARD_COUNT implies strictly_ascending(#[trigger] self.threads@[k]@) by {
                if k != i {
                    assert(self.threads@[k] == old(self).threads@[k]);
                }
            }
            assert forall|b: Board| b != board implies #[trigger] final(self).previous(b) == old(self).previous(b) by {
                lemma_index_injective(b);
                lemma_index_injective(board);
            }
        }
        r
    }
}

/// The index that a poller keeps for a board lists each thread once, in ascending order.
pub proof fn lemma_stored_index_distinct(poller: &BoardPoller, board: Board)
    requires
        poller.well_formed(),
    ensures
        strictly_ascending(poller.previous(board)),
        distinct_nos(poller.previous(board)),
{
    lemma_index_injective(board);
    let s = poller.previous(board);
    assert forall|i: int, j: int|
        0 <= i < s.len() && 0 <= j < s.len() && i != j implies s[i].spec_no() != s[j].spec_no() by {
        if i < j {
            assert(s[i].spec_no() < s[j].spec_no());
        } else {
            assert(s[j].spec_no() < s[i].spec_no());
        }
    }
}

/// Against an empty current index, a poller reports every thread of its kept index deleted.
pub proof fn lemma_poller_empty_index_all_deleted(poller: &BoardPoller, board: Board)
    requires
        poller.well_formed(),
    ensures
        classified(poller.previous(board), Seq::empty()) is Some,
        forall|k: int|
            0 <= k < poll_updates(poller.previous(board), Seq::empty()).len() ==> #[trigger] poll_updates(
                poller.previous(board),
                Seq::empty(),
            )[k] is Deleted,
        forall|n: u64|
            reports(poll_updates(poller.previous(board), Seq::empty()), n) <==> has_no(
                poller.previous(board),
                n,
            ),
{
    lemma_stored_index_distinct(poller, board);
    lemma_empty_index_all_deleted(poller.previous(board));
}

} // verus!
