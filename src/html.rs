//! Decoding of the few HTML entities that the site escapes in names and subjects.

use vstd::prelude::*;

use crate::text::{chars_of, string_of};

verus! {

/// `s` starts with `p`.
pub open spec fn starts_with(s: Seq<char>, p: Seq<char>) -> bool {
    p.len() <= s.len() && s.take(p.len() as int) == p
}

pub open spec fn apos_entity() -> Seq<char> {
    seq!['&', '#', '0', '3', '9', ';']
}

pub open spec fn gt_entity() -> Seq<char> {
    seq!['&', 'g', 't', ';']
}

pub open spec fn lt_entity() -> Seq<char> {
    seq!['&', 'l', 't', ';']
}

pub open spec fn quot_entity() -> Seq<char> {
    seq!['&', 'q', 'u', 'o', 't', ';']
}

pub open spec fn amp_entity() -> Seq<char> {
    seq!['&', 'a', 'm', 'p', ';']
}

/// The text with `&#039;`, `&gt;`, `&lt;`, `&quot;` and `&amp;` decoded, read from left to right;
/// what a decoded entity yields is never read again, so `&amp;gt;` gives `&gt;`. Other entities
/// stay as they are.
pub open spec fn unescaped(s: Seq<char>) -> Seq<char>
    decreases s.len(),
{
    if s.len() == 0 {
        Seq::empty()
    } else if starts_with(s, apos_entity()) {
        seq!['\''] + unescaped(s.skip(6))
    } else if starts_with(s, gt_entity()) {
        seq!['>'] + unescaped(s.skip(4))
    } else if starts_with(s, lt_entity()) {
        seq!['<'] + unescaped(s.skip(4))
    } else if starts_with(s, quot_entity()) {
        seq!['"'] + unescaped(s.skip(6))
    } else if starts_with(s, amp_entity()) {
        seq!['&'] + unescaped(s.skip(5))
    } else {
        seq![s[0]] + unescaped(s.skip(1))
    }
}

/// Whether `v` holds the characters of `p` from position `i` on.
fn matches_at(v: &Vec<char>, i: usize, p: &Vec<char>) -> (r: bool)
    requires
        i <= v@.len(),
    ensures
        r == starts_with(v@.skip(i as int), p@),
{
    if p.len() > v.len() - i {
        return false;
    }
    let mut k: usize = 0;
    while k < p.len()
        invariant
            k <= p@.len(),
            i + p@.len() <= v@.len(),
            v@.len() <= usize::MAX,
            forall|j: int| 0 <= j < k ==> v@[i + j] == p@[j],
        decreases p@.len() - k,
    {
        if v[i + k] != p[k] {
            assert(v@.skip(i as int).take(p@.len() as int)[k as int] != p@[k as int]);
            return false;
        }
        k = k + 1;
    }
    assert(v@.skip(i as int).take(p@.len() as int) =~= p@);
    true
}

/// Decodes `&#039;`, `&gt;`, `&lt;`, `&quot;` and `&amp;` in a name or a subject.
pub fn unescape(input: &str) -> (r: String)
    ensures
        r@ == unescaped(input@),
{
    let v = chars_of(input);
    let apos = vec!['&', '#', '0', '3', '9', ';'];
    let gt = vec!['&', 'g', 't', ';'];
    let lt = vec!['&', 'l', 't', ';'];
    let quot = vec!['&', 'q', 'u', 'o', 't', ';'];
    let amp = vec!['&', 'a', 'm', 'p', ';'];
    assert(apos@ =~= apos_entity());
    assert(gt@ =~= gt_entity());
    assert(lt@ =~= lt_entity());
    assert(quot@ =~= quot_entity());
    assert(amp@ =~= amp_entity());
    let mut out: Vec<char> = Vec::new();
    let mut i: usize = 0;
    assert(v@.skip(0) =~= v@);
    while i < v.len()
        invariant
            i <= v@.len(),
            v@ == input@,
            apos@ == apos_entity(),
            gt@ == gt_entity(),
            lt@ == lt_entity(),
            quot@ == quot_entity(),
            amp@ == amp_entity(),
            out@ + unescaped(v@.skip(i as int)) == unescaped(v@),
        decreases v@.len() - i,
    {
        let ghost rest = v@.skip(i as int);
        if matches_at(&v, i, &apos) {
            out.push('\'');
            assert(rest.skip(6) =~= v@.skip(i + 6));
            i = i + 6;
        } else if matches_at(&v, i, &gt) {
            out.push('>');
            assert(rest.skip(4) =~= v@.skip(i + 4));
            i = i + 4;
        } else if matches_at(&v, i, &lt) {
            out.push('<');
            assert(rest.skip(4) =~= v@.skip(i + 4));
            i = i + 4;
        } else if matches_at(&v, i, &quot) {
            out.push('"');
            assert(rest.skip(6) =~= v@.skip(i + 6));
            i = i + 6;
        } else if matches_at(&v, i, &amp) {
            out.push('&');
            assert(rest.skip(5) =~= v@.skip(i + 5));
            i = i + 5;
        } else {
            out.push(v[i]);
            assert(rest.skip(1) =~= v@.skip(i + 1));
            assert(rest[0] == v@[i as int]);
            i = i + 1;
        }
    }
    assert(v@.skip(i as int) =~= Seq::<char>::empty());
    string_of(&out)
}

} // verus!
