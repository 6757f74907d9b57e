//! A fixed-size set of parameter indices, one "changed" bit per index.
//!
//! A bit set to `true` means the value at that index has not yet been seen by
//! this set's consumer; `drain` hands the marked indices to the consumer and
//! clears them in one pass. In the running system one side marks while the
//! other drains; each operation here is a single atomic step of that protocol,
//! and the laws at the bottom of this file state why no mark is ever lost or
//! delivered twice across a drain boundary.

use vstd::prelude::*;

verus! {

/// Fixed-size set of small integers with idempotent `mark` and a clearing
/// `drain`.
pub struct DirtySet {
    bits: Vec<bool>,
}

impl View for DirtySet {
    type V = Seq<bool>;

    closed spec fn view(&self) -> Seq<bool> {
        self.bits@
    }
}

/// The set with every bit clear, as it stands right after a full drain.
pub open spec fn all_clear(len: nat) -> Seq<bool> {
    Seq::new(len, |i: int| false)
}

/// The indices a drain delivers: exactly those whose bit is set.
pub open spec fn delivers(bits: Seq<bool>, index: int) -> bool {
    0 <= index < bits.len() && bits[index]
}

impl DirtySet {
    /// A set over `len` indices, all clear.
    pub fn new(len: usize) -> (s: DirtySet)
        ensures
            s@ == all_clear(len as nat),
            s@.len() == len,
    {
        let mut bits: Vec<bool> = Vec::new();
        let mut i: usize = 0;
        while i < len
            invariant
                i <= len,
                bits@.len() == i,
                forall|j: int| 0 <= j < i ==> !bits@[j],
            decreases len - i,
        {
            bits.push(false);
            i = i + 1;
        }
        proof {
            assert(bits@ =~= all_clear(len as nat));
        }
        DirtySet { bits }
    }

    pub fn len(&self) -> (n: usize)
        ensures
            n == self@.len(),
    {
        self.bits.len()
    }

    /// Idempotently sets the bit for `index`. Out-of-range indices are a
    /// caller contract violation, ruled out here rather than handled.
    pub fn mark(&mut self, index: usize)
        requires
            index < old(self)@.len(),
        ensures
            final(self)@ == old(self)@.update(index as int, true),
    {
        self.bits.set(index, true);
    }

    /// Sets every bit, forcing the consumer to re-read all values (used after
    /// a bulk state load).
    pub fn mark_all(&mut self)
        ensures
            final(self)@.len() == old(self)@.len(),
            forall|i: int| 0 <= i < final(self)@.len() ==> final(self)@[i],
    {
        let n = self.bits.len();
        let mut i: usize = 0;
        while i < n
            invariant
                i <= n,
                self@.len() == n,
                forall|j: int| 0 <= j < i ==> self@[j],
            decreases n - i,
        {
            self.bits.set(i, true);
            i = i + 1;
        }
    }

    /// Delivers the marked indices in increasing order and clears them: every
    /// index marked at the start appears exactly once in the result, and the
    /// set ends empty.
    pub fn drain(&mut self) -> (drained: Vec<usize>)
        ensures
            final(self)@ == all_clear(old(self)@.len()),
            forall|i: int, j: int|
                0 <= i < j < drained@.len() ==> drained@[i] < drained@[j],
            forall|i: int|
                0 <= i < drained@.len() ==> delivers(old(self)@, #[trigger] drained@[i] as int),
            forall|b: int|
                delivers(old(self)@, b) ==> exists|i: int|
                    0 <= i < drained@.len() && #[trigger] drained@[i] == b,
    {
        let n = self.bits.len();
        let mut drained: Vec<usize> = Vec::new();
        let mut i: usize = 0;
        while i < n
            invariant
                i <= n,
                self@.len() == n,
                old(self)@.len() == n,
                forall|j: int| 0 <= j < i ==> !self@[j],
                forall|j: int| i <= j < n ==> self@[j] == old(self)@[j],
                forall|p: int, q: int|
                    0 <= p < q < drained@.len() ==> drained@[p] < drained@[q],
                forall|p: int| 0 <= p < drained@.len() ==> #[trigger] drained@[p] < i,
                forall|p: int|
                    0 <= p < drained@.len() ==> delivers(old(self)@, #[trigger] drained@[p] as int),
                forall|b: int|
                    0 <= b < i && delivers(old(self)@, b) ==> exists|p: int|
                        0 <= p < drained@.len() && #[trigger] drained@[p] == b,
            decreases n - i,
        {
            if self.bits[i] {
                proof {
                    assert(self@[i as int] == old(self)@[i as int]);
                }
                let ghost pre = drained@;
                drained.push(i);
                self.bits.set(i, false);
                proof {
                    assert(drained@[drained@.len() - 1] == i);
                    assert(delivers(old(self)@, i as int));
                    assert forall|b: int| 0 <= b < i + 1 && delivers(old(self)@, b) implies exists|
                        p: int,
                    | 0 <= p < drained@.len() && #[trigger] drained@[p] == b by {
                        if b < i {
                            let p = choose|p: int| 0 <= p < pre.len() && #[trigger] pre[p] == b;
                            assert(drained@[p] == b);
                        } else {
                            assert(drained@[drained@.len() - 1] == b);
                        }
                    }
                }
            }
            i = i + 1;
        }
        proof {
            assert(self@ =~= all_clear(old(self)@.len()));
        }
        drained
    }
}

/// Marking one index never disturbs another: a `mark` of `a` racing a drain
/// that is busy clearing `b` cannot make `b`'s bit reappear or vanish.
pub proof fn lemma_mark_disjoint(bits: Seq<bool>, a: int, b: int)
    requires
        0 <= a < bits.len(),
        0 <= b < bits.len(),
        a != b,
    ensures
        bits.update(a, true)[b] == bits[b],
{
}

/// A mark lands on exactly one side of a drain boundary, and is delivered by
/// exactly that drain: if `a` is marked before the drain takes its snapshot,
/// that drain delivers it and the next (over the cleared set) does not; if it
/// is marked after, the first drain misses it and the next delivers it. Either
/// way the mark is neither lost nor delivered twice.
pub proof fn lemma_mark_during_drain(bits: Seq<bool>, a: int)
    requires
        0 <= a < bits.len(),
    ensures
        delivers(bits.update(a, true), a),
        !delivers(all_clear(bits.len()), a),
        delivers(all_clear(bits.len()).update(a, true), a),
        !bits[a] ==> !delivers(bits, a),
{
}

} // verus!
