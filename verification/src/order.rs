//! Stable insertion sorting, used to order nodes by time and plugin
//! entries by time or name.

use vstd::prelude::*;
use crate::ids::{Timestamp, ts_le};
use crate::nodes::{Node, node_time};

verus! {

/// Values with a stable order: `precedes` tells whether one value goes
/// strictly before another, in one of two orders chosen by `alt`. Each
/// order is asymmetric and transitive.
pub trait Ranked: Sized {
    /// Whether `self` goes strictly before `other` in the order chosen by
    /// `alt`.
    spec fn precedes(&self, other: &Self, alt: bool) -> bool;

    /// The order is asymmetric and transitive.
    proof fn lemma_precedes(a: &Self, b: &Self, c: &Self, alt: bool)
        ensures
            a.precedes(b, alt) ==> !b.precedes(a, alt),
            a.precedes(b, alt) && b.precedes(c, alt) ==> a.precedes(c, alt);

    /// Whether `self` goes strictly before `other` in the order chosen by
    /// `alt`.
    fn goes_first(&self, other: &Self, alt: bool) -> (r: bool)
        ensures
            r == self.precedes(other, alt);
}

/// Whether time `a` is strictly earlier than time `b`.
pub open spec fn ts_lt(a: Timestamp, b: Timestamp) -> bool {
    ts_le(a, b) && a != b
}

fn ts_lt_exec(a: Timestamp, b: Timestamp) -> (r: bool)
    ensures
        r == ts_lt(a, b),
{
    a.le(&b) && !(a == b)
}

impl Ranked for Node {
    /// By time: newest first when `alt`, else oldest first.
    open spec fn precedes(&self, other: &Self, alt: bool) -> bool {
        if alt { ts_lt(node_time(other), node_time(self)) } else { ts_lt(node_time(self), node_time(other)) }
    }

    proof fn lemma_precedes(a: &Self, b: &Self, c: &Self, alt: bool) {
        crate::ids::lemma_ts_le_total_order(node_time(a), node_time(b), node_time(c));
        crate::ids::lemma_ts_le_total_order(node_time(c), node_time(b), node_time(a));
        crate::ids::lemma_ts_le_total_order(node_time(b), node_time(a), node_time(c));
    }

    fn goes_first(&self, other: &Self, alt: bool) -> (r: bool) {
        if alt { ts_lt_exec(other.time(), self.time()) } else { ts_lt_exec(self.time(), other.time()) }
    }
}

impl<'a> Ranked for &'a Node {
    /// By time: newest first when `alt`, else oldest first.
    open spec fn precedes(&self, other: &Self, alt: bool) -> bool {
        (**self).precedes(*other, alt)
    }

    proof fn lemma_precedes(a: &Self, b: &Self, c: &Self, alt: bool) {
        Node::lemma_precedes(*a, *b, *c, alt);
    }

    fn goes_first(&self, other: &Self, alt: bool) -> (r: bool) {
        (**self).goes_first(*other, alt)
    }
}

/// Whether `x` goes strictly before `y` in the order chosen by `alt`.
pub open spec fn goes_before<T: Ranked>(x: T, y: T, alt: bool) -> bool {
    x.precedes(&y, alt)
}

/// Whether `s` is ordered: no node goes strictly before a node ahead of it.
pub open spec fn is_ordered<T: Ranked>(s: Seq<T>, alt: bool) -> bool {
    forall|i: int, j: int| 0 <= i < j < s.len() ==> !goes_before(#[trigger] s[j], #[trigger] s[i], alt)
}

/// Where `x` is inserted into the ordered `s`: before the first node that
/// `x` goes strictly before, so that nodes of equal time keep their order.
pub open spec fn insert_position<T: Ranked>(s: Seq<T>, x: T, alt: bool) -> nat
    decreases s.len(),
{
    if s.len() == 0 {
        0
    } else if goes_before(x, s[0], alt) {
        0
    } else {
        1 + insert_position(s.drop_first(), x, alt)
    }
}

/// The stable sort of `s` by time: each node in turn is inserted after the
/// nodes already placed that do not go after it.
pub open spec fn stable_sorted<T: Ranked>(s: Seq<T>, alt: bool) -> Seq<T>
    decreases s.len(),
{
    if s.len() == 0 {
        Seq::empty()
    } else {
        let r = stable_sorted(s.drop_last(), alt);
        r.insert(insert_position(r, s.last(), alt) as int, s.last())
    }
}

proof fn lemma_insert_position_bounds<T: Ranked>(s: Seq<T>, x: T, alt: bool)
    ensures
        insert_position(s, x, alt) <= s.len(),
        forall|j: int| 0 <= j < insert_position(s, x, alt) ==> !goes_before(x, #[trigger] s[j], alt),
        insert_position(s, x, alt) < s.len() ==> goes_before(x, s[insert_position(s, x, alt) as int], alt),
    decreases s.len(),
{
    if s.len() > 0 && !goes_before(x, s[0], alt) {
        lemma_insert_position_bounds(s.drop_first(), x, alt);
        assert forall|j: int| 0 <= j < insert_position(s, x, alt) implies !goes_before(x, #[trigger] s[j], alt) by {
            if j > 0 {
                assert(s[j] == s.drop_first()[j - 1]);
            }
        }
    }
}

/// Inserting at the insert position keeps a sequence ordered.
proof fn lemma_insert_ordered<T: Ranked>(s: Seq<T>, x: T, alt: bool)
    requires
        is_ordered(s, alt),
    ensures
        is_ordered(s.insert(insert_position(s, x, alt) as int, x), alt),
{
    lemma_insert_position_bounds(s, x, alt);
    let p = insert_position(s, x, alt) as int;
    let r = s.insert(p, x);
    assert forall|i: int, j: int| 0 <= i < j < r.len() implies !goes_before(#[trigger] r[j], #[trigger] r[i], alt) by {
        if i < p && j < p {
            assert(r[i] == s[i] && r[j] == s[j]);
        } else if i < p && j == p {
            assert(r[i] == s[i]);
            assert(!goes_before(x, s[i], alt));
        } else if i < p && j > p {
            assert(r[i] == s[i] && r[j] == s[j - 1]);
        } else if i == p {
            assert(r[j] == s[j - 1]);
            T::lemma_precedes(&s[j - 1], &x, &s[p], alt);
            if j - 1 > p {
                assert(!goes_before(s[j - 1], s[p], alt));
            }
        } else {
            assert(r[i] == s[i - 1] && r[j] == s[j - 1]);
        }
    }
}

/// The stable sort is ordered and holds the same nodes as its input.
pub proof fn lemma_stable_sorted<T: Ranked>(s: Seq<T>, alt: bool)
    ensures
        is_ordered(stable_sorted(s, alt), alt),
        stable_sorted(s, alt).to_multiset() == s.to_multiset(),
        stable_sorted(s, alt).len() == s.len(),
    decreases s.len(),
{
    broadcast use vstd::seq_lib::group_to_multiset_ensures;
    if s.len() > 0 {
        let r = stable_sorted(s.drop_last(), alt);
        lemma_stable_sorted(s.drop_last(), alt);
        lemma_insert_ordered(r, s.last(), alt);
        lemma_insert_position_bounds(r, s.last(), alt);
        let p = insert_position(r, s.last(), alt) as int;
        vstd::seq_lib::to_multiset_insert(r, p, s.last());
        assert(s.drop_last().push(s.last()).to_multiset() =~= s.drop_last().to_multiset().insert(s.last()));
        assert(s.drop_last().push(s.last()) =~= s);
    }
}

/// Find where `x` goes in the ordered list `v`.
fn find_insert_position<T: Ranked>(v: &Vec<T>, x: &T, alt: bool) -> (p: usize)
    ensures
        p == insert_position(v@, *x, alt),
{
    let mut i: usize = 0;
    assert(v@.skip(0) =~= v@);
    while i < v.len()
        invariant
            i <= v@.len(),
            insert_position(v@, *x, alt) == i + insert_position(v@.skip(i as int), *x, alt),
        decreases v@.len() - i,
    {
        let before = x.goes_first(&v[i], alt);
        proof {
            let rest = v@.skip(i as int);
            assert(rest[0] == v@[i as int]);
            assert(rest.drop_first() =~= v@.skip(i + 1));
        }
        if before {
            return i;
        }
        i = i + 1;
    }
    proof {
        assert(v@.skip(i as int).len() == 0);
    }
    i
}

/// Sort stably in the order chosen by `alt`: values that neither goes
/// before the other keep their order.
pub fn stable_sort<T: Ranked>(nodes: Vec<T>, alt: bool) -> (r: Vec<T>)
    ensures
        r@ == stable_sorted(nodes@, alt),
{
    let ghost orig = nodes@;
    let ghost n = nodes@.len();
    let mut rest = nodes;
    let mut out: Vec<T> = Vec::new();
    assert(orig.take(0) =~= Seq::<T>::empty());
    while rest.len() > 0
        invariant
            n == orig.len(),
            rest@.len() <= n,
            rest@ == orig.skip(n - rest@.len()),
            out@ == stable_sorted(orig.take(n - rest@.len()), alt),
        decreases rest@.len(),
    {
        let ghost i = n - rest@.len();
        let x = rest.remove(0);
        proof {
            assert(x == orig[i]);
            assert(rest@ =~= orig.skip(i + 1));
            assert(orig.take(i + 1).drop_last() =~= orig.take(i));
            assert(orig.take(i + 1).last() == x);
        }
        let p = find_insert_position(&out, &x, alt);
        proof { lemma_insert_position_bounds(out@, x, alt); }
        out.insert(p, x);
    }
    assert(orig.take(n as int) =~= orig);
    out
}

/// The elements of `v` in reverse order.
pub fn reversed<T>(v: Vec<T>) -> (r: Vec<T>)
    ensures
        r@.len() == v@.len(),
        forall|j: int| 0 <= j < r@.len() ==> r@[j] == v@[v@.len() - 1 - j],
{
    let ghost input = v@;
    let mut src = v;
    let mut out: Vec<T> = Vec::new();
    while src.len() > 0
        invariant
            src@.len() + out@.len() == input.len(),
            src@ == input.take(src@.len() as int),
            forall|j: int| 0 <= j < out@.len() ==> out@[j] == input[input.len() - 1 - j],
        decreases src@.len(),
    {
        let x = src.pop().unwrap();
        out.push(x);
    }
    out
}

} // verus!
