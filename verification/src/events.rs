//! Time-stamped parameter-change events scoped to one processing block, and
//! the splitting of a block into sub-ranges at event boundaries.
//!
//! Splitting lets a plugin apply each change only to the samples at or after
//! its offset: the sub-ranges jointly cover every sample of the block exactly
//! once, and every event is handed out exactly once, attached to the
//! sub-range that starts at its offset.

use vstd::prelude::*;

verus! {

/// A parameter change: which parameter, and its new value (an opaque 64-bit
/// word; the adapter decides its encoding).
#[derive(Clone, Copy, PartialEq, Eq, Structural, Debug)]
pub struct ParamChange {
    pub id: u32,
    pub value: u64,
}

/// The payload of a timed event.
#[derive(Clone, Copy, PartialEq, Eq, Structural, Debug)]
pub enum EventType {
    ParamChange(ParamChange),
}

/// An event at a block-relative sample offset.
#[derive(Clone, Copy, PartialEq, Eq, Structural, Debug)]
pub struct Event {
    pub offset: usize,
    pub event: EventType,
}

/// One sub-range of a block: samples `[start, end)` and, by index into the
/// timeline, the events `[first_event, end_event)` that take effect at
/// `start`.
#[derive(Clone, Copy, PartialEq, Eq, Structural, Debug)]
pub struct Segment {
    pub start: usize,
    pub end: usize,
    pub first_event: usize,
    pub end_event: usize,
}

/// Offsets never decrease along the timeline.
pub open spec fn events_sorted(events: Seq<Event>) -> bool {
    forall|i: int, j: int|
        0 <= i < j < events.len() ==> (#[trigger] events[i]).offset <= (#[trigger] events[j]).offset
}

/// Every offset lies inside the block.
pub open spec fn events_within(events: Seq<Event>, block_len: usize) -> bool {
    forall|i: int| 0 <= i < events.len() ==> (#[trigger] events[i]).offset < block_len
}

/// What a correct split looks like: the segments tile `[0, block_len)` with
/// no gap and no overlap, hand out the events in one unbroken run of index
/// ranges, and give every event to the segment that starts at its offset.
pub open spec fn valid_split(block_len: usize, events: Seq<Event>, segs: Seq<Segment>) -> bool {
    &&& segs.len() >= 1
    &&& segs[0].start == 0
    &&& segs[0].first_event == 0
    &&& segs.last().end == block_len
    &&& segs.last().end_event == events.len()
    &&& forall|i: int|
        0 <= i < segs.len() ==> (#[trigger] segs[i]).start <= segs[i].end && segs[i].first_event
            <= segs[i].end_event <= events.len()
    &&& forall|i: int|
        0 <= i < segs.len() - 1 ==> (#[trigger] segs[i]).end == segs[i + 1].start && segs[i].end_event
            == segs[i + 1].first_event
    &&& forall|i: int|
        0 <= i < segs.len() - 1 ==> (#[trigger] segs[i]).start < segs[i + 1].start
    &&& forall|i: int, j: int|
        0 <= i < segs.len() && segs[i].first_event <= j < segs[i].end_event ==> (#[trigger] events[j]).offset
            == (#[trigger] segs[i]).start
    &&& forall|i: int|
        1 <= i < segs.len() ==> (#[trigger] segs[i]).first_event < segs[i].end_event
}

/// Splits a block of `block_len` samples at the offsets of the given
/// timeline. The first sub-range starts at sample zero; each later one starts
/// exactly at the offset of the next event; the last extends to the end of
/// the block. A timeline with no events yields one sub-range spanning the
/// whole block with no events attached.
pub fn split_at_events(block_len: usize, events: &Vec<Event>) -> (segs: Vec<Segment>)
    requires
        events_sorted(events@),
        events_within(events@, block_len),
    ensures
        valid_split(block_len, events@, segs@),
        events@.len() == 0 ==> segs@.len() == 1,
{
    let n = events.len();
    let mut segs: Vec<Segment> = Vec::new();
    let mut seg_start: usize = 0;
    let mut seg_first: usize = 0;
    let mut idx: usize = 0;
    while idx < n
        invariant
            events_sorted(events@),
            events_within(events@, block_len),
            n == events@.len(),
            seg_first <= idx <= n,
            seg_start < block_len || (seg_start == 0 && block_len == 0),
            forall|j: int| seg_first <= j < idx ==> (#[trigger] events@[j]).offset == seg_start,
            forall|j: int| idx <= j < n ==> (#[trigger] events@[j]).offset >= seg_start,
            segs@.len() == 0 ==> seg_start == 0 && seg_first == 0,
            segs@.len() > 0 ==> segs@[0].start == 0 && segs@[0].first_event == 0,
            segs@.len() > 0 ==> segs@.last().end == seg_start && segs@.last().end_event
                == seg_first && segs@.last().start < seg_start,
            segs@.len() > 0 ==> seg_first < n && events@[seg_first as int].offset == seg_start,
            forall|i: int|
                0 <= i < segs@.len() ==> (#[trigger] segs@[i]).start <= segs@[i].end
                    && segs@[i].first_event <= segs@[i].end_event <= n,
            forall|i: int|
                0 <= i < segs@.len() - 1 ==> (#[trigger] segs@[i]).end == segs@[i + 1].start
                    && segs@[i].end_event == segs@[i + 1].first_event,
            forall|i: int|
                0 <= i < segs@.len() - 1 ==> (#[trigger] segs@[i]).start < segs@[i + 1].start,
            forall|i: int, j: int|
                0 <= i < segs@.len() && segs@[i].first_event <= j < segs@[i].end_event ==> (
                #[trigger] events@[j]).offset == (#[trigger] segs@[i]).start,
            forall|i: int|
                1 <= i < segs@.len() ==> (#[trigger] segs@[i]).first_event < segs@[i].end_event,
        decreases n - idx,
    {
        if events[idx].offset != seg_start {
            segs.push(
                Segment {
                    start: seg_start,
                    end: events[idx].offset,
                    first_event: seg_first,
                    end_event: idx,
                },
            );
            seg_start = events[idx].offset;
            seg_first = idx;
        }
        idx = idx + 1;
    }
    segs.push(
        Segment { start: seg_start, end: block_len, first_event: seg_first, end_event: n },
    );
    segs
}

} // verus!
