//! Stable sorting by an integer depth key.

use vstd::prelude::*;
use vstd::seq_lib::*;

verus! {

/// Items ordered by an integer depth key: larger keys are farther from the camera.
pub trait DepthKeyed {
    /// The depth key of the item.
    spec fn spec_depth_key(&self) -> u32;

    /// The depth key of the item.
    fn depth_key_of(&self) -> (k: u32)
        ensures
            k == self.spec_depth_key(),
    ;
}

/// Whether key `a` may come before key `b`: ascending order, or descending when
/// `far_first`.
pub open spec fn key_before(a: u32, b: u32, far_first: bool) -> bool {
    if far_first {
        a >= b
    } else {
        a <= b
    }
}

/// Whether the items are ordered by depth key (ascending, or descending when `far_first`).
pub open spec fn depth_sorted<E: DepthKeyed>(s: Seq<E>, far_first: bool) -> bool {
    forall|i: int, j: int| 0 <= i < j < s.len() ==> key_before(#[trigger] s[i].spec_depth_key(), #[trigger] s[j].spec_depth_key(), far_first)
}

/// Selects the items with depth key `k`.
pub open spec fn has_key<E: DepthKeyed>(k: u32) -> spec_fn(E) -> bool {
    |c: E| c.spec_depth_key() == k
}

/// `out` is `inp` stably sorted by depth key: ordered, and for every key the items
/// with that key appear in `out` exactly as, and in the order in which, they appear in `inp`.
pub open spec fn stable_depth_sort<E: DepthKeyed>(out: Seq<E>, inp: Seq<E>, far_first: bool) -> bool {
    &&& out.len() == inp.len()
    &&& depth_sorted(out, far_first)
    &&& forall|k: u32| #[trigger] out.filter(has_key::<E>(k)) == inp.filter(has_key::<E>(k))
}

/// Inserting `x` right after the items that may precede it keeps the order and
/// appends `x` to the items of its key.
proof fn lemma_insert_stable<E: DepthKeyed>(out: Seq<E>, x: E, p: int, far_first: bool)
    requires
        0 <= p <= out.len(),
        depth_sorted(out, far_first),
        forall|i: int| 0 <= i < p ==> key_before(#[trigger] out[i].spec_depth_key(), x.spec_depth_key(), far_first),
        forall|i: int| p <= i < out.len() ==> !key_before(#[trigger] out[i].spec_depth_key(), x.spec_depth_key(), far_first),
    ensures
        depth_sorted(out.insert(p, x), far_first),
        forall|k: u32| #[trigger] out.insert(p, x).filter(has_key::<E>(k)) == if k == x.spec_depth_key() {
            out.filter(has_key::<E>(k)).push(x)
        } else {
            out.filter(has_key::<E>(k))
        },
{
    let o2 = out.insert(p, x);
    let a = out.subrange(0, p);
    let b = out.subrange(p, out.len() as int);
    assert(o2 =~= a + seq![x] + b);
    assert(out =~= a + b);
    assert forall|k: u32| #[trigger] o2.filter(has_key::<E>(k)) == if k == x.spec_depth_key() {
        out.filter(has_key::<E>(k)).push(x)
    } else {
        out.filter(has_key::<E>(k))
    } by {
        let f = has_key::<E>(k);
        Seq::filter_distributes_over_add(a + seq![x], b, f);
        Seq::filter_distributes_over_add(a, seq![x], f);
        Seq::filter_distributes_over_add(a, b, f);
        assert(seq![x] =~= Seq::<E>::empty().push(x));
        Seq::<E>::empty().lemma_filter_push(x, f);
        reveal(Seq::filter);
        assert(Seq::<E>::empty().filter(f) =~= Seq::<E>::empty());
        if k == x.spec_depth_key() {
            assert forall|i: int| 0 <= i < b.len() implies !f(#[trigger] b[i]) by {
                assert(b[i] == out[p + i]);
            }
            b.lemma_all_neg_filter_empty(f);
            assert(b.filter(f) =~= Seq::<E>::empty());
            assert(a.filter(f) + seq![x] + b.filter(f) =~= (a.filter(f) + b.filter(f)).push(x));
        } else {
            assert(a.filter(f) + Seq::<E>::empty() + b.filter(f) =~= a.filter(f) + b.filter(f));
        }
    }
    assert forall|i: int, j: int| 0 <= i < j < o2.len() implies key_before(
        #[trigger] o2[i].spec_depth_key(),
        #[trigger] o2[j].spec_depth_key(),
        far_first,
    ) by {
        if j < p {
            assert(o2[i] == out[i] && o2[j] == out[j]);
        } else if j == p {
            assert(o2[i] == out[i]);
        } else if i < p {
            assert(o2[i] == out[i] && o2[j] == out[j - 1]);
        } else if i == p {
            assert(o2[j] == out[j - 1]);
        } else {
            assert(o2[i] == out[i - 1] && o2[j] == out[j - 1]);
        }
    }
}

/// Sort items by depth key, keeping the order of items with equal keys:
/// ascending, or descending when `far_first`.
pub fn stable_sort_by_depth<E: DepthKeyed>(items: Vec<E>, far_first: bool) -> (out: Vec<E>)
    ensures
        stable_depth_sort(out@, items@, far_first),
{
    let ghost inp = items@;
    let n = items.len();
    let mut rest = items;
    let mut out: Vec<E> = Vec::new();
    let mut i: usize = 0;
    while rest.len() > 0
        invariant
            i + rest@.len() == inp.len(),
            inp.len() == n,
            rest@ == inp.subrange(i as int, inp.len() as int),
            out@.len() == i,
            depth_sorted(out@, far_first),
            forall|k: u32| #[trigger] out@.filter(has_key::<E>(k)) == inp.take(i as int).filter(has_key::<E>(k)),
        decreases rest@.len(),
    {
        let x = rest.remove(0);
        // The first position whose key may not precede x.
        let mut p: usize = 0;
        while p < out.len() && key_precedes(out[p].depth_key_of(), x.depth_key_of(), far_first)
            invariant
                p <= out@.len(),
                depth_sorted(out@, far_first),
                forall|q: int| 0 <= q < p ==> key_before(#[trigger] out@[q].spec_depth_key(), x.spec_depth_key(), far_first),
            decreases out@.len() - p,
        {
            p = p + 1;
        }
        proof {
            assert forall|q: int| p <= q < out@.len() implies !key_before(#[trigger] out@[q].spec_depth_key(), x.spec_depth_key(), far_first) by {
                assert(!key_before(out@[p as int].spec_depth_key(), x.spec_depth_key(), far_first));
                assert(key_before(out@[p as int].spec_depth_key(), out@[q].spec_depth_key(), far_first) || p as int == q);
            }
            lemma_insert_stable(out@, x, p as int, far_first);
            assert(inp.take(i as int + 1) =~= inp.take(i as int).push(x));
            assert forall|k: u32| #[trigger] inp.take(i as int + 1).filter(has_key::<E>(k)) == if k == x.spec_depth_key() {
                inp.take(i as int).filter(has_key::<E>(k)).push(x)
            } else {
                inp.take(i as int).filter(has_key::<E>(k))
            } by {
                inp.take(i as int).lemma_filter_push(x, has_key::<E>(k));
            }
        }
        out.insert(p, x);
        i = i + 1;
    }
    assert(inp.take(i as int) =~= inp);
    out
}

/// Selecting with a predicate keeps every occurrence of the items it holds of and
/// drops the others.
pub proof fn lemma_filter_count<A>(s: Seq<A>, f: spec_fn(A) -> bool, x: A)
    ensures
        s.filter(f).to_multiset().count(x) == if f(x) {
            s.to_multiset().count(x)
        } else {
            0
        },
    decreases s.len(),
{
    broadcast use vstd::multiset::group_multiset_axioms;
    broadcast use group_to_multiset_ensures;

    if s.len() == 0 {
        reveal(Seq::filter);
        assert(s.filter(f) =~= s);
        assert(!s.contains(x));
    } else {
        let s0 = s.drop_last();
        let e = s.last();
        lemma_filter_count(s0, f, x);
        assert(s =~= s0.push(e));
        s0.lemma_filter_push(e, f);
        if !f(x) {
            assert(!s.filter(f).contains(x)) by {
                if s.filter(f).contains(x) {
                    let i = choose|i: int| 0 <= i < s.filter(f).len() && s.filter(f)[i] == x;
                    s.lemma_filter_pred(f, i);
                }
            }
        }
    }
}

/// A stable sort by depth reorders its input: both hold the same items, each as
/// many times.
pub proof fn lemma_stable_sort_same_items<E: DepthKeyed>(out: Seq<E>, inp: Seq<E>, far_first: bool)
    requires
        stable_depth_sort(out, inp, far_first),
    ensures
        out.to_multiset() =~= inp.to_multiset(),
{
    assert forall|x: E| #[trigger] out.to_multiset().count(x) == inp.to_multiset().count(x) by {
        let f = has_key::<E>(x.spec_depth_key());
        lemma_filter_count(out, f, x);
        lemma_filter_count(inp, f, x);
        assert(out.filter(f) == inp.filter(f));
    }
}

/// Executable form of [`key_before`].
fn key_precedes(a: u32, b: u32, far_first: bool) -> (r: bool)
    ensures
        r == key_before(a, b, far_first),
{
    if far_first {
        a >= b
    } else {
        a <= b
    }
}

} // verus!
