use vstd::prelude::*;

use crate::FillLevel;

verus! {

/// The fill level of a ring holding `len` elements out of `cap` slots.
pub open spec fn fill_level_of(len: nat, cap: nat) -> FillLevel {
    if len == 0 {
        FillLevel::Empty
    } else if len == cap {
        FillLevel::Full
    } else {
        FillLevel::Partial
    }
}

/// The contents, oldest first, of a ring with `cap` slots after `v` is pushed
/// onto contents `s`: a ring without slots keeps nothing, a full ring drops
/// its oldest element.
pub open spec fn push_model<T>(cap: nat, s: Seq<T>, v: T) -> Seq<T> {
    if cap == 0 {
        s
    } else if s.len() < cap {
        s.push(v)
    } else {
        s.drop_first().push(v)
    }
}

/// The contents after each element of `vs` is pushed in order.
pub open spec fn push_all<T>(cap: nat, s: Seq<T>, vs: Seq<T>) -> Seq<T>
    decreases vs.len(),
{
    if vs.len() == 0 {
        s
    } else {
        push_model(cap, push_all(cap, s, vs.drop_last()), vs.last())
    }
}

/// The last `k` elements of `vs`, or all of them when there are fewer.
pub open spec fn last_n<T>(vs: Seq<T>, k: nat) -> Seq<T> {
    if vs.len() <= k {
        vs
    } else {
        vs.subrange(vs.len() - k, vs.len() as int)
    }
}

/// `b` holds, position by position, clones of the elements of `a`.
pub open spec fn clones_of<T: Clone>(a: Seq<T>, b: Seq<T>) -> bool {
    &&& a.len() == b.len()
    &&& forall|i: int| 0 <= i < a.len() ==> cloned(#[trigger] a[i], b[i])
}

} // verus!

verus! {

/// Pushing onto the last `cap` elements of `w` keeps the last `cap` elements
/// of `w` followed by the new one.
proof fn lemma_push_onto_last<T>(cap: nat, w: Seq<T>, x: T)
    requires
        cap > 0,
    ensures
        push_model(cap, last_n(w, cap), x) == last_n(w.push(x), cap),
{
    let lhs = push_model(cap, last_n(w, cap), x);
    let rhs = last_n(w.push(x), cap);
    assert(lhs =~= rhs);
}

/// Starting from at most `cap` elements, pushing `vs` leaves the last `cap`
/// elements of everything held and pushed, in order.
pub proof fn lemma_push_all_keeps_last<T>(cap: nat, s: Seq<T>, vs: Seq<T>)
    requires
        s.len() <= cap,
    ensures
        push_all(cap, s, vs) == last_n(s + vs, cap),
    decreases vs.len(),
{
    if vs.len() == 0 {
        assert(s + vs =~= s);
    } else {
        let init = vs.drop_last();
        lemma_push_all_keeps_last(cap, s, init);
        assert((s + init).push(vs.last()) =~= s + vs);
        if cap > 0 {
            lemma_push_onto_last(cap, s + init, vs.last());
        } else {
            assert(last_n(s + vs, 0) =~= Seq::<T>::empty());
            assert(last_n(s + init, 0) =~= Seq::<T>::empty());
        }
    }
}

/// A ring with `cap` slots that starts empty and is pushed `vs` holds exactly
/// the last `min(|vs|, cap)` of them, oldest first.
pub proof fn lemma_pushes_from_empty<T>(cap: nat, vs: Seq<T>)
    ensures
        push_all(cap, Seq::<T>::empty(), vs) == last_n(vs, cap),
        push_all(cap, Seq::<T>::empty(), vs).len() == if vs.len() < cap {
            vs.len()
        } else {
            cap
        },
{
    lemma_push_all_keeps_last(cap, Seq::<T>::empty(), vs);
    assert(Seq::<T>::empty() + vs =~= vs);
}

/// Pushing `a` and then `b` is the same as pushing `a + b` in one go.
pub proof fn lemma_push_all_concat<T>(cap: nat, s: Seq<T>, a: Seq<T>, b: Seq<T>)
    ensures
        push_all(cap, s, a + b) == push_all(cap, push_all(cap, s, a), b),
    decreases b.len(),
{
    if b.len() == 0 {
        assert(a + b =~= a);
    } else {
        lemma_push_all_concat(cap, s, a, b.drop_last());
        assert((a + b).drop_last() =~= a + b.drop_last());
        assert((a + b).last() == b.last());
    }
}

/// As elements are pushed onto an empty ring with at least one slot, its fill
/// level goes from empty to partial to full, and stays full.
pub proof fn lemma_fill_level_progression<T>(cap: nat, vs: Seq<T>)
    requires
        cap >= 1,
    ensures
        fill_level_of(push_all(cap, Seq::<T>::empty(), vs).len(), cap) == if vs.len() == 0 {
            FillLevel::Empty
        } else if vs.len() < cap {
            FillLevel::Partial
        } else {
            FillLevel::Full
        },
{
    lemma_pushes_from_empty(cap, vs);
}

} // verus!
