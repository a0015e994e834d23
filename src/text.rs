//! Small operations on text that the filters need.
use vstd::prelude::*;

verus! {

/// Relies on String::push: the character is appended at the end.
#[verifier::external_body]
pub(crate) fn push_char(s: &mut String, c: char)
    ensures
        final(s)@ == old(s)@.push(c),
{
    s.push(c)
}

/// `p` occurs in `t` at position `i`.
pub open spec fn occurs_at(t: Seq<char>, p: Seq<char>, i: int) -> bool {
    0 <= i && i + p.len() <= t.len() && t.subrange(i, i + p.len()) == p
}

/// `p` occurs somewhere in `t` (the empty text occurs everywhere).
pub open spec fn has_infix(t: Seq<char>, p: Seq<char>) -> bool {
    exists|i: int| occurs_at(t, p, i)
}

/// What follows the last `/` of `t`, or all of `t` when it holds none.
pub open spec fn last_segment(t: Seq<char>) -> Seq<char>
    decreases t.len(),
{
    if t.len() == 0 {
        t
    } else if t.last() == '/' {
        Seq::empty()
    } else {
        last_segment(t.drop_last()).push(t.last())
    }
}

/// The characters of `s`.
pub fn chars_of(s: &str) -> (r: Vec<char>)
    ensures
        r@ == s@,
{
    let mut v: Vec<char> = Vec::new();
    for c in it: s.chars()
        invariant
            it.seq() == s@,
            v@ == s@.take(it.index() as int),
    {
        proof {
            assert(s@.take(it.index() as int + 1) =~= s@.take(it.index() as int).push(c));
        }
        v.push(c);
    }
    assert(s@.take(s@.len() as int) =~= s@);
    v
}

/// A string of the characters of `v`.
pub fn string_of(v: &Vec<char>) -> (r: String)
    ensures
        r@ == v@,
{
    let mut s = String::new();
    let mut i: usize = 0;
    while i < v.len()
        invariant
            i <= v.len(),
            s@ == v@.take(i as int),
        decreases v.len() - i,
    {
        assert(v@.take(i as int + 1) =~= v@.take(i as int).push(v@[i as int]));
        push_char(&mut s, v[i]);
        i = i + 1;
    }
    assert(v@.take(v.len() as int) =~= v@);
    s
}

/// Whether the two texts are the same.
pub fn same_text(a: &str, b: &str) -> (r: bool)
    ensures
        r == (a@ == b@),
{
    let x = chars_of(a);
    let y = chars_of(b);
    if x.len() != y.len() {
        return false;
    }
    let mut i: usize = 0;
    while i < x.len()
        invariant
            x.len() == y.len(),
            i <= x.len(),
            x@ == a@,
            y@ == b@,
            forall|j: int| 0 <= j < i ==> x@[j] == y@[j],
        decreases x.len() - i,
    {
        if x[i] != y[i] {
            return false;
        }
        i = i + 1;
    }
    assert(x@ =~= y@);
    true
}

fn matches_at(t: &Vec<char>, p: &Vec<char>, i: usize) -> (r: bool)
    requires
        i + p.len() <= t.len(),
    ensures
        r == occurs_at(t@, p@, i as int),
{
    let mut j: usize = 0;
    while j < p.len()
        invariant
            i + p.len() <= t.len(),
            j <= p.len(),
            forall|k: int| 0 <= k < j ==> t@[i + k] == p@[k],
        decreases p.len() - j,
    {
        if t[i + j] != p[j] {
            assert(t@.subrange(i as int, i + p.len())[j as int] != p@[j as int]);
            return false;
        }
        j = j + 1;
    }
    assert(t@.subrange(i as int, i + p.len()) =~= p@);
    true
}

/// Whether `p` occurs in `t`.
pub fn contains_text(t: &str, p: &str) -> (r: bool)
    ensures
        r == has_infix(t@, p@),
{
    let tv = chars_of(t);
    let pv = chars_of(p);
    if pv.len() > tv.len() {
        return false;
    }
    let last = tv.len() - pv.len();
    let mut i: usize = 0;
    while i < last
        invariant
            tv@ == t@,
            pv@ == p@,
            i <= last,
            last == tv.len() - pv.len(),
            forall|k: int| 0 <= k < i ==> !occurs_at(t@, p@, k),
        decreases last - i,
    {
        if matches_at(&tv, &pv, i) {
            return true;
        }
        i = i + 1;
    }
    if matches_at(&tv, &pv, last) {
        return true;
    }
    assert forall|k: int| !occurs_at(t@, p@, k) by {
        if 0 <= k && k + p@.len() <= t@.len() {
            assert(k <= last);
        }
    }
    false
}

/// What follows the last `/` of `t`.
pub fn last_segment_of(t: &str) -> (r: String)
    ensures
        r@ == last_segment(t@),
{
    let v = chars_of(t);
    let mut start: usize = v.len();
    assert(t@.take(start as int) =~= t@);
    assert(t@.subrange(start as int, t@.len() as int) =~= Seq::<char>::empty());
    assert(t@ + Seq::<char>::empty() =~= t@);
    assert(last_segment(t@) + Seq::<char>::empty() =~= last_segment(t@));
    while start > 0 && v[start - 1] != '/'
        invariant
            start <= v.len(),
            v@ == t@,
            last_segment(t@) == last_segment(t@.take(start as int)) + t@.subrange(start as int, t@.len() as int),
        decreases start,
    {
        let ghost s = start as int;
        assert(t@.take(s).drop_last() =~= t@.take(s - 1));
        assert(t@.subrange(s - 1, t@.len() as int) =~= seq![t@[s - 1]] + t@.subrange(s, t@.len() as int));
        assert(last_segment(t@.take(s)) == last_segment(t@.take(s - 1)).push(t@[s - 1]));
        assert(last_segment(t@.take(s - 1)).push(t@[s - 1]) + t@.subrange(s, t@.len() as int)
            =~= last_segment(t@.take(s - 1)) + t@.subrange(s - 1, t@.len() as int));
        start = start - 1;
    }
    proof {
        if start > 0 {
            assert(t@.take(start as int).last() == '/');
        }
        assert(last_segment(t@.take(start as int)) =~= Seq::<char>::empty());
    }
    let mut tail: Vec<char> = Vec::new();
    let mut i: usize = start;
    while i < v.len()
        invariant
            start <= i <= v.len(),
            v@ == t@,
            tail@ == t@.subrange(start as int, i as int),
        decreases v.len() - i,
    {
        tail.push(v[i]);
        i = i + 1;
        assert(tail@ =~= t@.subrange(start as int, i as int));
    }
    assert(last_segment(t@) =~= tail@);
    string_of(&tail)
}

} // verus!
