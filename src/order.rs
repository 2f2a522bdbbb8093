//! Ordering of numbered items (index entries, posts) by their number.

use vstd::prelude::*;

verus! {

/// An item that carries a number which identifies it among its siblings.
pub trait Numbered {
    spec fn spec_no(&self) -> u64;

    fn no(&self) -> (r: u64)
        ensures
            r == self.spec_no(),
    ;
}

/// `t` inserted into `r` before the first item whose number is at least `t`'s.
pub open spec fn insert_by_no<T: Numbered>(r: Seq<T>, t: T) -> Seq<T>
    decreases r.len(),
{
    if r.len() == 0 {
        seq![t]
    } else if t.spec_no() <= r[0].spec_no() {
        seq![t] + r
    } else {
        seq![r[0]] + insert_by_no(r.drop_first(), t)
    }
}

/// The items of `s` in ascending order of their numbers; items with equal numbers keep their
/// relative order.
pub open spec fn sort_by_no<T: Numbered>(s: Seq<T>) -> Seq<T>
    decreases s.len(),
{
    if s.len() == 0 {
        Seq::empty()
    } else {
        insert_by_no(sort_by_no(s.drop_first()), s[0])
    }
}

/// The numbers of `s` never decrease.
pub open spec fn ascending<T: Numbered>(s: Seq<T>) -> bool {
    forall|i: int, j: int| 0 <= i < j < s.len() ==> s[i].spec_no() <= s[j].spec_no()
}

/// The numbers of `s` strictly increase.
pub open spec fn strictly_ascending<T: Numbered>(s: Seq<T>) -> bool {
    forall|i: int, j: int| 0 <= i < j < s.len() ==> s[i].spec_no() < s[j].spec_no()
}

/// No two items of `s` carry the same number.
pub open spec fn distinct_nos<T: Numbered>(s: Seq<T>) -> bool {
    forall|i: int, j: int| 0 <= i < s.len() && 0 <= j < s.len() && i != j ==> s[i].spec_no() != s[j].spec_no()
}

/// Some item of `s` carries the number `n`.
pub open spec fn has_no<T: Numbered>(s: Seq<T>, n: u64) -> bool {
    exists|i: int| 0 <= i < s.len() && s[i].spec_no() == n
}

/// Two positions of a sequence without repeated numbers hold different numbers.
pub proof fn lemma_distinct_at<T: Numbered>(s: Seq<T>, i: int, j: int)
    requires
        distinct_nos(s),
        0 <= i < s.len(),
        0 <= j < s.len(),
        i != j,
    ensures
        s[i].spec_no() != s[j].spec_no(),
{
}

/// An ascending sequence without repeated numbers is strictly ascending.
pub proof fn lemma_strictly_ascending<T: Numbered>(s: Seq<T>)
    requires
        ascending(s),
        distinct_nos(s),
    ensures
        strictly_ascending(s),
{
    assert forall|i: int, j: int| 0 <= i < j < s.len() implies s[i].spec_no() < s[j].spec_no() by {
        lemma_distinct_at(s, i, j);
    }
}

proof fn lemma_insert_at<T: Numbered>(r: Seq<T>, t: T, k: int)
    requires
        0 <= k <= r.len(),
        forall|j: int| 0 <= j < k ==> r[j].spec_no() < t.spec_no(),
        k == r.len() || t.spec_no() <= r[k].spec_no(),
    ensures
        insert_by_no(r, t) == r.take(k) + seq![t] + r.skip(k),
    decreases r.len(),
{
    if r.len() == 0 {
        assert(r.take(k) + seq![t] + r.skip(k) =~= seq![t]);
    } else if k == 0 {
        assert(r.take(k) + seq![t] + r.skip(k) =~= seq![t] + r);
    } else {
        let d = r.drop_first();
        assert forall|j: int| 0 <= j < k - 1 implies d[j].spec_no() < t.spec_no() by {
            assert(d[j] == r[j + 1]);
        }
        if k < r.len() {
            assert(d[k - 1] == r[k]);
        }
        lemma_insert_at(d, t, k - 1);
        assert(seq![r[0]] + (d.take(k - 1) + seq![t] + d.skip(k - 1)) =~= r.take(k) + seq![t]
            + r.skip(k));
    }
}

/// Inserting into an ascending sequence keeps it ascending and adds exactly one item.
pub proof fn lemma_insert_members<T: Numbered>(r: Seq<T>, t: T)
    ensures
        insert_by_no(r, t).len() == r.len() + 1,
        insert_by_no(r, t).to_multiset() =~= r.to_multiset().insert(t),
        ascending(r) ==> ascending(insert_by_no(r, t)),
    decreases r.len(),
{
    broadcast use vstd::seq_lib::group_to_multiset_ensures;

    if r.len() == 0 {
        assert(seq![t] =~= Seq::<T>::empty().push(t));
    } else if t.spec_no() <= r[0].spec_no() {
        assert(seq![t] + r =~= r.insert(0, t));
        r.to_multiset_ensures();
        assert((seq![t] + r).to_multiset() =~= r.to_multiset().insert(t)) by {
            vstd::seq_lib::lemma_multiset_commutative(seq![t], r);
            assert(seq![t] =~= Seq::<T>::empty().push(t));
        }
    } else {
        let d = r.drop_first();
        lemma_insert_members(d, t);
        let rest = insert_by_no(d, t);
        vstd::seq_lib::lemma_multiset_commutative(seq![r[0]], rest);
        vstd::seq_lib::lemma_multiset_commutative(seq![r[0]], d);
        assert(seq![r[0]] + d =~= r);
        assert(seq![r[0]] =~= Seq::<T>::empty().push(r[0]));
        if ascending(r) {
            let s = seq![r[0]] + rest;
            assert(ascending(d));
            assert forall|i: int, j: int| 0 <= i < j < s.len() implies s[i].spec_no()
                <= s[j].spec_no() by {
                if i == 0 {
                    assert(rest.to_multiset().count(s[j]) > 0) by {
                        assert(s[j] == rest[j - 1]);
                        rest.to_multiset_ensures();
                    }
                    assert(rest.to_multiset().contains(s[j]));
                    assert(d.to_multiset().insert(t).contains(s[j]));
                    if s[j] != t {
                        assert(d.to_multiset().contains(s[j]));
                        d.to_multiset_ensures();
                        let m = choose|m: int| 0 <= m < d.len() && d[m] == s[j];
                        assert(d[m] == r[m + 1]);
                    }
                } else {
                    assert(s[i] == rest[i - 1] && s[j] == rest[j - 1]);
                }
            }
        }
    }
}

/// Sorting keeps the items and orders them.
pub proof fn lemma_sort_members<T: Numbered>(s: Seq<T>)
    ensures
        sort_by_no(s).len() == s.len(),
        sort_by_no(s).to_multiset() =~= s.to_multiset(),
        ascending(sort_by_no(s)),
    decreases s.len(),
{
    broadcast use vstd::seq_lib::group_to_multiset_ensures;

    if s.len() > 0 {
        lemma_sort_members(s.drop_first());
        lemma_insert_members(sort_by_no(s.drop_first()), s[0]);
        vstd::seq_lib::lemma_multiset_commutative(seq![s[0]], s.drop_first());
        assert(seq![s[0]] + s.drop_first() =~= s);
        assert(seq![s[0]] =~= Seq::<T>::empty().push(s[0]));
    }
}

proof fn lemma_has_no_cons<T: Numbered>(x: T, y: Seq<T>, n: u64)
    ensures
        has_no(seq![x] + y, n) <==> (x.spec_no() == n || has_no(y, n)),
{
    let s = seq![x] + y;
    if has_no(s, n) {
        let i = choose|i: int| 0 <= i < s.len() && s[i].spec_no() == n;
        if i > 0 {
            assert(y[i - 1] == s[i]);
        }
    }
    if has_no(y, n) {
        let i = choose|i: int| 0 <= i < y.len() && y[i].spec_no() == n;
        assert(s[i + 1] == y[i]);
    }
    assert(s[0] == x);
}

proof fn lemma_distinct_cons<T: Numbered>(x: T, y: Seq<T>)
    ensures
        distinct_nos(seq![x] + y) <==> (distinct_nos(y) && !has_no(y, x.spec_no())),
        forall|n: u64| has_no(seq![x] + y, n) <==> (x.spec_no() == n || has_no(y, n)),
{
    let s = seq![x] + y;
    assert forall|n: u64| has_no(s, n) <==> (x.spec_no() == n || has_no(y, n)) by {
        if has_no(s, n) {
            let i = choose|i: int| 0 <= i < s.len() && s[i].spec_no() == n;
            if i > 0 {
                assert(y[i - 1] == s[i]);
            }
        }
        if has_no(y, n) {
            let i = choose|i: int| 0 <= i < y.len() && y[i].spec_no() == n;
            assert(s[i + 1] == y[i]);
        }
        assert(s[0] == x);
    }
    if distinct_nos(s) {
        assert forall|i: int, j: int|
            0 <= i < y.len() && 0 <= j < y.len() && i != j implies y[i].spec_no()
            != y[j].spec_no() by {
            assert(s[i + 1] == y[i] && s[j + 1] == y[j]);
        }
        if has_no(y, x.spec_no()) {
            let i = choose|i: int| 0 <= i < y.len() && y[i].spec_no() == x.spec_no();
            assert(s[i + 1] == y[i]);
            assert(s[0] == x);
        }
    }
    if distinct_nos(y) && !has_no(y, x.spec_no()) {
        assert forall|i: int, j: int|
            0 <= i < s.len() && 0 <= j < s.len() && i != j implies s[i].spec_no()
            != s[j].spec_no() by {
            if i == 0 {
                assert(y[j - 1] == s[j]);
            } else if j == 0 {
                assert(y[i - 1] == s[i]);
            } else {
                assert(y[i - 1] == s[i] && y[j - 1] == s[j]);
            }
        }
    }
}

proof fn lemma_insert_distinct<T: Numbered>(r: Seq<T>, t: T)
    ensures
        distinct_nos(insert_by_no(r, t)) <==> (distinct_nos(r) && !has_no(r, t.spec_no())),
        forall|n: u64| #[trigger] has_no(insert_by_no(r, t), n) <==> (t.spec_no() == n || has_no(r, n)),
    decreases r.len(),
{
    if r.len() == 0 || t.spec_no() <= r[0].spec_no() {
        lemma_distinct_cons(t, r);
        assert(insert_by_no(r, t) =~= seq![t] + r);
        assert forall|n: u64| #[trigger] has_no(insert_by_no(r, t), n) <==> (t.spec_no() == n || has_no(r, n)) by {
            lemma_has_no_cons(t, r, n);
        }
    } else {
        let d = r.drop_first();
        lemma_insert_distinct(d, t);
        lemma_distinct_cons(r[0], insert_by_no(d, t));
        lemma_distinct_cons(r[0], d);
        assert(seq![r[0]] + d =~= r);
        assert forall|n: u64| #[trigger] has_no(insert_by_no(r, t), n) <==> (t.spec_no() == n || has_no(r, n)) by {
            assert(insert_by_no(r, t) == seq![r[0]] + insert_by_no(d, t));
            assert(has_no(insert_by_no(d, t), n) <==> (t.spec_no() == n || has_no(d, n)));
            lemma_has_no_cons(r[0], insert_by_no(d, t), n);
            lemma_has_no_cons(r[0], d, n);
        }
    }
}

/// Sorting keeps the numbers that occur, and whether any of them repeats.
pub proof fn lemma_sort_distinct<T: Numbered>(s: Seq<T>)
    ensures
        distinct_nos(sort_by_no(s)) <==> distinct_nos(s),
        forall|n: u64| #[trigger] has_no(sort_by_no(s), n) <==> has_no(s, n),
    decreases s.len(),
{
    if s.len() > 0 {
        let d = s.drop_first();
        lemma_sort_distinct(d);
        lemma_insert_distinct(sort_by_no(d), s[0]);
        lemma_distinct_cons(s[0], d);
        assert(seq![s[0]] + d =~= s);
        assert forall|n: u64| #[trigger] has_no(sort_by_no(s), n) <==> has_no(s, n) by {
            assert(has_no(sort_by_no(d), n) <==> has_no(d, n));
            lemma_has_no_cons(s[0], d, n);
        }
    }
}

/// Sorting an ascending sequence leaves it as it is.
pub proof fn lemma_sort_ascending_fixed<T: Numbered>(s: Seq<T>)
    requires
        ascending(s),
    ensures
        sort_by_no(s) == s,
    decreases s.len(),
{
    if s.len() > 0 {
        let d = s.drop_first();
        assert(ascending(d));
        lemma_sort_ascending_fixed(d);
        if d.len() == 0 {
            assert(seq![s[0]] =~= s);
        } else {
            assert(s[0].spec_no() <= d[0].spec_no());
            assert(seq![s[0]] + d =~= s);
        }
    }
}

/// An item occurs in `sort_by_no(s)` exactly when it occurs in `s`.
pub proof fn lemma_sort_contains<T: Numbered>(s: Seq<T>)
    ensures
        forall|x: T| sort_by_no(s).contains(x) <==> s.contains(x),
{
    broadcast use vstd::seq_lib::group_to_multiset_ensures;

    lemma_sort_members(s);
    assert forall|x: T| sort_by_no(s).contains(x) <==> s.contains(x) by {
        assert(sort_by_no(s).to_multiset().count(x) == s.to_multiset().count(x));
    }
}

/// Whether the numbers of an ascending list never repeat.
pub fn no_repeats<T: Numbered>(s: &Vec<T>) -> (r: bool)
    requires
        ascending(s@),
    ensures
        r == distinct_nos(s@),
        r ==> strictly_ascending(s@),
{
    let mut k: usize = 1;
    while k < s.len()
        invariant
            1 <= k,
            ascending(s@),
            forall|i: int, j: int| 0 <= i < j < k && j < s@.len() ==> s@[i].spec_no() < s@[j].spec_no(),
        decreases s@.len() - k,
    {
        if s[k - 1].no() == s[k].no() {
            assert(!distinct_nos(s@)) by {
                assert(s@[k - 1].spec_no() == s@[k as int].spec_no());
            }
            return false;
        }
        k = k + 1;
    }
    assert(distinct_nos(s@)) by {
        assert forall|i: int, j: int|
            0 <= i < s@.len() && 0 <= j < s@.len() && i != j implies s@[i].spec_no()
            != s@[j].spec_no() by {
            if i < j {
                assert(s@[i].spec_no() < s@[j].spec_no());
            } else {
                assert(s@[j].spec_no() < s@[i].spec_no());
            }
        }
    }
    true
}

/// The items of `v` in ascending order of their numbers.
pub fn sorted_by_no<T: Numbered>(v: Vec<T>) -> (r: Vec<T>)
    ensures
        r@ == sort_by_no(v@),
        ascending(r@),
{
    let ghost s = v@;
    let mut v = v;
    let mut r: Vec<T> = Vec::new();
    while v.len() > 0
        invariant
            v@ == s.take(v@.len() as int),
            v@.len() <= s.len(),
            r@ == sort_by_no(s.skip(v@.len() as int)),
            ascending(r@),
        decreases v@.len(),
    {
        let ghost n = v@.len() as int;
        let t = v.pop().unwrap();
        assert(t == s[n - 1]);
        let tn = t.no();
        let mut k: usize = 0;
        while k < r.len() && r[k].no() < tn
            invariant
                k <= r@.len(),
                forall|j: int| 0 <= j < k ==> r@[j].spec_no() < tn,
            decreases r@.len() - k,
        {
            k = k + 1;
        }
        proof {
            lemma_insert_at(r@, t, k as int);
            lemma_insert_members(r@, t);
            assert(s.skip(n - 1).drop_first() =~= s.skip(n));
            assert(s.skip(n - 1)[0] == t);
            assert(v@ =~= s.take(n - 1));
        }
        r.insert(k, t);
        assert(r@ =~= insert_by_no(sort_by_no(s.skip(n)), t));
    }
    assert(s.skip(0) =~= s);
    r
}

} // verus!
