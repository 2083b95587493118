//! Mathematical model of the bounded FIFO buffer: one-step transition
//! functions for insertion and removal, and a fold of a whole operation
//! history, over which the queue's global laws are stated and proved.

use vstd::prelude::*;

verus! {

/// A single request made of the buffer: insert a value, or remove the head.
pub enum Op<T> {
    Put(T),
    Take,
}

/// Whether an insertion into a buffer `s` under capacity `cap` is accepted.
pub open spec fn put_accepted<T>(s: Seq<T>, cap: nat) -> bool {
    s.len() < cap
}

/// The buffer after an attempted insertion of `x`: appended at the tail when
/// there is room, unchanged otherwise.
pub open spec fn put_step<T>(s: Seq<T>, cap: nat, x: T) -> Seq<T> {
    if put_accepted(s, cap) {
        s.push(x)
    } else {
        s
    }
}

/// The value an attempted removal yields: the head when the buffer is
/// non-empty, nothing otherwise.
pub open spec fn take_value<T>(s: Seq<T>) -> Option<T> {
    if s.len() > 0 {
        Some(s[0])
    } else {
        None
    }
}

/// The buffer after an attempted removal: the head dropped when the buffer is
/// non-empty, unchanged otherwise.
pub open spec fn take_step<T>(s: Seq<T>) -> Seq<T> {
    if s.len() > 0 {
        s.drop_first()
    } else {
        s
    }
}

/// Replays a whole history of operations on a buffer that starts as `init`,
/// under capacity `cap`. Returns, in order: the final buffer, the values the
/// removals yielded (in the order they were yielded), and the values the
/// insertions accepted (in the order they were accepted).
pub open spec fn run<T>(cap: nat, init: Seq<T>, ops: Seq<Op<T>>) -> (Seq<T>, Seq<T>, Seq<T>)
    decreases ops.len(),
{
    if ops.len() == 0 {
        (init, Seq::<T>::empty(), Seq::<T>::empty())
    } else {
        let prev = run(cap, init, ops.drop_last());
        match ops.last() {
            Op::Put(x) => (
                put_step(prev.0, cap, x),
                prev.1,
                if put_accepted(prev.0, cap) {
                    prev.2.push(x)
                } else {
                    prev.2
                },
            ),
            Op::Take => (
                take_step(prev.0),
                if prev.0.len() > 0 {
                    prev.1.push(prev.0[0])
                } else {
                    prev.1
                },
                prev.2,
            ),
        }
    }
}

/// A history made of one insertion per value of `vs`, in order.
pub open spec fn puts<T>(vs: Seq<T>) -> Seq<Op<T>> {
    vs.map_values(|v: T| Op::Put(v))
}

/// A history made of `n` removals.
pub open spec fn takes<T>(n: nat) -> Seq<Op<T>> {
    Seq::new(n, |i: int| Op::<T>::Take)
}

/// Capacity invariant: whatever operations are requested, a buffer that
/// starts within its capacity bound stays within it (and its length, a
/// natural number, never goes below zero).
pub proof fn lemma_capacity_invariant<T>(cap: nat, init: Seq<T>, ops: Seq<Op<T>>)
    requires
        init.len() <= cap,
    ensures
        0 <= run(cap, init, ops).0.len() <= cap,
    decreases ops.len(),
{
    if ops.len() > 0 {
        lemma_capacity_invariant(cap, init, ops.drop_last());
    }
}

/// Conservation: no element is lost, duplicated or reordered. Over any
/// history, the removed values followed by what remains buffered are exactly
/// the initial contents followed by the accepted insertions.
pub proof fn lemma_conservation<T>(cap: nat, init: Seq<T>, ops: Seq<Op<T>>)
    ensures
        run(cap, init, ops).1 + run(cap, init, ops).0 == init + run(cap, init, ops).2,
    decreases ops.len(),
{
    if ops.len() == 0 {
        assert(run(cap, init, ops).1 + run(cap, init, ops).0 =~= init + run(cap, init, ops).2);
    } else {
        lemma_conservation(cap, init, ops.drop_last());
        let prev = run(cap, init, ops.drop_last());
        match ops.last() {
            Op::Put(x) => {
                if put_accepted(prev.0, cap) {
                    assert(prev.1 + prev.0.push(x) =~= (prev.1 + prev.0).push(x));
                    assert(init + prev.2.push(x) =~= (init + prev.2).push(x));
                }
                assert(run(cap, init, ops).1 + run(cap, init, ops).0 =~= init + run(
                    cap,
                    init,
                    ops,
                ).2);
            },
            Op::Take => {
                if prev.0.len() > 0 {
                    assert(prev.1.push(prev.0[0]) + prev.0.drop_first() =~= prev.1 + prev.0);
                }
                assert(run(cap, init, ops).1 + run(cap, init, ops).0 =~= init + run(
                    cap,
                    init,
                    ops,
                ).2);
            },
        }
    }
}

/// Replaying one history after another is the same as replaying their
/// concatenation: the buffer carries over, and the yielded and accepted
/// values concatenate.
pub proof fn lemma_run_append<T>(cap: nat, init: Seq<T>, a: Seq<Op<T>>, b: Seq<Op<T>>)
    ensures
        run(cap, init, a + b).0 == run(cap, run(cap, init, a).0, b).0,
        run(cap, init, a + b).1 == run(cap, init, a).1 + run(cap, run(cap, init, a).0, b).1,
        run(cap, init, a + b).2 == run(cap, init, a).2 + run(cap, run(cap, init, a).0, b).2,
    decreases b.len(),
{
    let mid = run(cap, init, a).0;
    if b.len() == 0 {
        assert(a + b =~= a);
        assert(run(cap, init, a).1 + run(cap, mid, b).1 =~= run(cap, init, a).1);
        assert(run(cap, init, a).2 + run(cap, mid, b).2 =~= run(cap, init, a).2);
    } else {
        lemma_run_append(cap, init, a, b.drop_last());
        assert((a + b).drop_last() =~= a + b.drop_last());
        let p = run(cap, init, a + b.drop_last());
        let q = run(cap, mid, b.drop_last());
        match b.last() {
            Op::Put(x) => {
                if put_accepted(p.0, cap) {
                    assert(run(cap, init, a).2 + q.2.push(x) =~= (run(cap, init, a).2
                        + q.2).push(x));
                }
            },
            Op::Take => {
                if p.0.len() > 0 {
                    assert(run(cap, init, a).1 + q.1.push(p.0[0]) =~= (run(cap, init, a).1
                        + q.1).push(p.0[0]));
                }
            },
        }
    }
}

/// Insertions that all fit: replaying one insertion per value of `vs` on a
/// buffer with room for all of them accepts every value, appends them in
/// order, and yields nothing.
pub proof fn lemma_puts_fill<T>(cap: nat, init: Seq<T>, vs: Seq<T>)
    requires
        init.len() + vs.len() <= cap,
    ensures
        run(cap, init, puts(vs)).0 == init + vs,
        run(cap, init, puts(vs)).1 == Seq::<T>::empty(),
        run(cap, init, puts(vs)).2 == vs,
    decreases vs.len(),
{
    if vs.len() == 0 {
        assert(puts(vs) =~= Seq::<Op<T>>::empty());
        assert(init + vs =~= init);
        assert(run(cap, init, puts(vs)).2 =~= vs);
    } else {
        lemma_puts_fill(cap, init, vs.drop_last());
        assert(puts(vs).drop_last() =~= puts(vs.drop_last()));
        assert(puts(vs).last() == Op::Put(vs.last()));
        let prev = run(cap, init, puts(vs.drop_last()));
        assert(put_accepted(prev.0, cap));
        assert((init + vs.drop_last()).push(vs.last()) =~= init + vs);
        assert(vs.drop_last().push(vs.last()) =~= vs);
    }
}

/// Removals from a known buffer: replaying `k` removals on a buffer holding
/// at least `k` elements yields its first `k` elements in order and leaves
/// the rest.
pub proof fn lemma_takes_drain<T>(cap: nat, b: Seq<T>, k: nat)
    requires
        k <= b.len(),
    ensures
        run(cap, b, takes(k)).0 == b.skip(k as int),
        run(cap, b, takes(k)).1 == b.take(k as int),
        run(cap, b, takes(k)).2 == Seq::<T>::empty(),
    decreases k,
{
    if k == 0 {
        assert(takes::<T>(0) =~= Seq::<Op<T>>::empty());
        assert(b.skip(0) =~= b);
        assert(b.take(0) =~= Seq::<T>::empty());
    } else {
        lemma_takes_drain(cap, b, (k - 1) as nat);
        assert(takes::<T>(k).drop_last() =~= takes::<T>((k - 1) as nat));
        assert(takes::<T>(k).last() == Op::<T>::Take);
        let prev = run(cap, b, takes::<T>((k - 1) as nat));
        assert(prev.0.len() > 0);
        assert(prev.0[0] == b[k - 1]);
        assert(b.skip(k - 1).drop_first() =~= b.skip(k as int));
        assert(b.take(k - 1).push(b[k - 1]) =~= b.take(k as int));
    }
}

/// First-in, first-out: filling an empty buffer with the values of `vs` (all
/// of which fit) and then removing as many values yields exactly `vs`, in
/// insertion order, and leaves the buffer empty.
pub proof fn lemma_fifo<T>(cap: nat, vs: Seq<T>)
    requires
        vs.len() <= cap,
    ensures
        run(cap, Seq::<T>::empty(), puts(vs) + takes(vs.len())).1 == vs,
        run(cap, Seq::<T>::empty(), puts(vs) + takes(vs.len())).0 == Seq::<T>::empty(),
{
    let init = Seq::<T>::empty();
    lemma_run_append(cap, init, puts(vs), takes::<T>(vs.len()));
    lemma_puts_fill(cap, init, vs);
    assert(init + vs =~= vs);
    lemma_takes_drain(cap, vs, vs.len());
    assert(vs.skip(vs.len() as int) =~= Seq::<T>::empty());
    assert(vs.take(vs.len() as int) =~= vs);
    assert(run(cap, init, puts(vs)).1 + run(cap, vs, takes::<T>(vs.len())).1 =~= vs);
}

/// Round trip: inserting `x` into an empty buffer and immediately removing
/// yields `x` itself and restores the empty buffer, whatever `x` is.
pub proof fn lemma_round_trip<T>(cap: nat, s: Seq<T>, x: T)
    requires
        s.len() == 0,
        cap >= 1,
    ensures
        take_value(put_step(s, cap, x)) == Some(x),
        take_step(put_step(s, cap, x)) == s,
{
    assert(s.push(x).drop_first() =~= s);
}

} // verus!
