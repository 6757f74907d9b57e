//! Coalescing, most-recent-value delivery of parameter changes between the
//! plugin-model side (UI, host automation dispatch) and the processor side
//! (the audio thread).
//!
//! One slot per parameter holds the latest value; two dirty sets record which
//! indices each side still has to read. A write stores the value and then
//! marks the bit the *other* side consumes, so a burst of writes collapses to
//! one delivery per poll (last value wins). Values are opaque 64-bit words:
//! the adapter at the boundary decides what bit pattern they carry.

use vstd::prelude::*;

use crate::dirty::{all_clear, delivers, DirtySet};

verus! {

/// The two owners of a channel: the plugin-model side and the processor
/// (audio-thread) side.
#[derive(Clone, Copy, PartialEq, Eq, Structural, Debug)]
pub enum Side {
    Model,
    Processor,
}

/// The side a write notifies: the one not writing.
pub open spec fn other_side(side: Side) -> Side {
    match side {
        Side::Model => Side::Processor,
        Side::Processor => Side::Model,
    }
}

/// What a drain hands the consumer, stated against the pending bits and the
/// slot values it found: the indices come in increasing order (so none twice),
/// each delivered pair is a marked index with its latest value, and every
/// marked index is delivered.
pub open spec fn delivered_exactly(pend: Seq<bool>, vals: Seq<u64>, out: Seq<(usize, u64)>) -> bool {
    &&& forall|i: int, j: int| 0 <= i < j < out.len() ==> out[i].0 < out[j].0
    &&& forall|i: int|
        0 <= i < out.len() ==> delivers(pend, #[trigger] out[i].0 as int) && out[i].1 == vals[out[i].0 as int]
    &&& forall|b: int|
        delivers(pend, b) ==> exists|i: int| 0 <= i < out.len() && #[trigger] out[i].0 == b
}

/// One slot per parameter plus a pending set per direction.
pub struct ParamChannel {
    values: Vec<u64>,
    to_model: DirtySet,
    to_processor: DirtySet,
}

impl ParamChannel {
    /// The latest stored value of every parameter.
    pub closed spec fn values(&self) -> Seq<u64> {
        self.values@
    }

    /// The bits still to be consumed by `side`.
    pub closed spec fn pending(&self, side: Side) -> Seq<bool> {
        match side {
            Side::Model => self.to_model@,
            Side::Processor => self.to_processor@,
        }
    }

    /// Both pending sets cover exactly the parameter slots.
    pub open spec fn wf(&self) -> bool {
        &&& self.pending(Side::Model).len() == self.values().len()
        &&& self.pending(Side::Processor).len() == self.values().len()
    }

    /// A channel whose slots start at the given defaults, with nothing
    /// pending on either side.
    pub fn new(defaults: Vec<u64>) -> (c: ParamChannel)
        ensures
            c.wf(),
            c.values() == defaults@,
            c.pending(Side::Model) == all_clear(defaults@.len()),
            c.pending(Side::Processor) == all_clear(defaults@.len()),
    {
        let len = defaults.len();
        ParamChannel { values: defaults, to_model: DirtySet::new(len), to_processor: DirtySet::new(len) }
    }

    pub fn param_count(&self) -> (n: usize)
        ensures
            n == self.values().len(),
    {
        self.values.len()
    }

    /// The latest value stored at `index`, whether or not it has been polled.
    pub fn get(&self, index: usize) -> (v: u64)
        requires
            index < self.values().len(),
        ensures
            v == self.values()[index as int],
    {
        self.values[index]
    }

    /// Stores `value` at `index` on behalf of `writer`, then marks the bit
    /// the opposite side consumes. The writer's own pending set is untouched:
    /// a side never needs to be told about its own write.
    pub fn set(&mut self, writer: Side, index: usize, value: u64)
        requires
            old(self).wf(),
            index < old(self).values().len(),
        ensures
            final(self).wf(),
            final(self).values() == old(self).values().update(index as int, value),
            final(self).pending(other_side(writer)) == old(self).pending(other_side(writer)).update(
                index as int,
                true,
            ),
            final(self).pending(writer) == old(self).pending(writer),
    {
        self.values.set(index, value);
        match writer {
            Side::Model => self.to_processor.mark(index),
            Side::Processor => self.to_model.mark(index),
        }
    }

    /// Drains `side`'s pending set and delivers, in index order, the latest
    /// value of every index that was marked: at-most-one delivery per poll,
    /// and the set ends empty.
    pub fn poll(&mut self, side: Side) -> (out: Vec<(usize, u64)>)
        requires
            old(self).wf(),
        ensures
            final(self).wf(),
            final(self).values() == old(self).values(),
            final(self).pending(other_side(side)) == old(self).pending(other_side(side)),
            final(self).pending(side) == all_clear(old(self).values().len()),
            delivered_exactly(old(self).pending(side), old(self).values(), out@),
    {
        let drained = match side {
            Side::Model => self.to_model.drain(),
            Side::Processor => self.to_processor.drain(),
        };
        let mut out: Vec<(usize, u64)> = Vec::new();
        let mut i: usize = 0;
        while i < drained.len()
            invariant
                i <= drained@.len(),
                out@.len() == i,
                old(self).wf(),
                self.wf(),
                self.values() == old(self).values(),
                forall|p: int|
                    0 <= p < drained@.len() ==> delivers(
                        old(self).pending(side),
                        #[trigger] drained@[p] as int,
                    ),
                forall|p: int| 0 <= p < i ==> (#[trigger] out@[p]).0 == drained@[p],
                forall|p: int|
                    0 <= p < i ==> (#[trigger] out@[p]).1 == old(self).values()[drained@[p] as int],
            decreases drained@.len() - i,
        {
            let index = drained[i];
            proof {
                assert(delivers(old(self).pending(side), index as int));
            }
            let value = self.values[index];
            out.push((index, value));
            i = i + 1;
        }
        proof {
            assert forall|b: int| delivers(old(self).pending(side), b) implies exists|k: int|
                0 <= k < out@.len() && #[trigger] out@[k].0 == b by {
                let p = choose|p: int| 0 <= p < drained@.len() && #[trigger] drained@[p] == b;
                assert(out@[p].0 == b);
            }
        }
        out
    }

    /// Marks every index pending for both sides, so that after a bulk state
    /// load each consumer resynchronizes against every current value.
    pub fn mark_all(&mut self)
        requires
            old(self).wf(),
        ensures
            final(self).wf(),
            final(self).values() == old(self).values(),
            forall|i: int|
                0 <= i < final(self).values().len() ==> final(self).pending(Side::Model)[i]
                    && final(self).pending(Side::Processor)[i],
    {
        self.to_model.mark_all();
        self.to_processor.mark_all();
    }
}

/// The state of a channel side as a poll would see it: the slot values and
/// the pending bits, after a sequence of writes.
pub open spec fn apply_writes(vals: Seq<u64>, pend: Seq<bool>, writes: Seq<(int, u64)>) -> (
    Seq<u64>,
    Seq<bool>,
)
    decreases writes.len(),
{
    if writes.len() == 0 {
        (vals, pend)
    } else {
        let (v, p) = apply_writes(vals, pend, writes.drop_last());
        (v.update(writes.last().0, writes.last().1), p.update(writes.last().0, true))
    }
}

/// Whether some write in the sequence touches `index`.
pub open spec fn writes_touch(writes: Seq<(int, u64)>, index: int) -> bool {
    exists|k: int| 0 <= k < writes.len() && (#[trigger] writes[k]).0 == index
}

/// The value of the last write to `index`.
pub open spec fn last_write(writes: Seq<(int, u64)>, index: int) -> u64
    decreases writes.len(),
{
    if writes.len() == 0 {
        0
    } else if writes.last().0 == index {
        writes.last().1
    } else {
        last_write(writes.drop_last(), index)
    }
}

/// Last write wins: after any sequence of writes, an index is pending exactly
/// when it was already pending or some write touched it, and its slot holds
/// the value of the last write that touched it. Together with `poll`'s
/// contract — each pending index delivered exactly once, with its slot value —
/// every index written since the last poll is delivered exactly once, with
/// the value of its last write.
pub proof fn lemma_last_write_wins(
    vals: Seq<u64>,
    pend: Seq<bool>,
    writes: Seq<(int, u64)>,
    index: int,
)
    requires
        vals.len() == pend.len(),
        forall|k: int| 0 <= k < writes.len() ==> 0 <= (#[trigger] writes[k]).0 < vals.len(),
        0 <= index < vals.len(),
    ensures
        apply_writes(vals, pend, writes).0.len() == vals.len(),
        apply_writes(vals, pend, writes).1.len() == pend.len(),
        apply_writes(vals, pend, writes).1[index] == (pend[index] || writes_touch(writes, index)),
        apply_writes(vals, pend, writes).0[index] == if writes_touch(writes, index) {
            last_write(writes, index)
        } else {
            vals[index]
        },
    decreases writes.len(),
{
    if writes.len() > 0 {
        lemma_last_write_wins(vals, pend, writes.drop_last(), index);
        if writes_touch(writes, index) && writes.last().0 != index {
            let k = choose|k: int| 0 <= k < writes.len() && (#[trigger] writes[k]).0 == index;
            assert(writes.drop_last()[k] == writes[k]);
        }
        if writes_touch(writes.drop_last(), index) {
            let k = choose|k: int|
                0 <= k < writes.drop_last().len() && (#[trigger] writes.drop_last()[k]).0 == index;
            assert(writes[k] == writes.drop_last()[k]);
        }
    }
}

} // verus!
