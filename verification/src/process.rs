//! The per-block sequencing contract that ties the other components
//! together: drain the parameter channel, validate and split the event
//! timeline, route the host's buffers, then hand each timeline-delimited
//! sub-range to the plugin's own processing code.
//!
//! Everything here is validate-then-commit: a rejected block leaves the
//! parameter channel and the scratch storage exactly as they were, so the
//! adapter can report the rejection to the host without any state to unwind.

use vstd::prelude::*;

use crate::buffers::{
    route, routed, shape_ok, spec_min, BufferView, HostBlock, RouteError, ScratchStorage,
};
use crate::bus::{BusDir, Layout, Topology, TopologyError};
use crate::dirty::{all_clear, delivers};
use crate::events::{
    events_sorted, events_within, split_at_events, valid_split, Event, EventType, Segment,
};
use crate::sync::{apply_writes, delivered_exactly, other_side, ParamChannel, Side};

verus! {

/// Immutable descriptor of one parameter: a stable id, a display name, the
/// default value word, and a step count for discrete parameters (continuous
/// ones have none). Display formatting and parsing live outside the core.
pub struct ParamDesc {
    pub id: u32,
    pub name: String,
    pub default: u64,
    pub steps: Option<u32>,
}

/// The plugin's own processing code, supplied by the library's user. The
/// core calls `set_param` for every coalesced change it drains, `reset` when
/// the host asks for a clean slate, and `process` once per sub-range of each
/// block, with the events that take effect at that sub-range's start.
pub trait Processor {
    fn set_param(&mut self, id: u32, value: u64);

    fn reset(&mut self);

    fn process(
        &mut self,
        view: &BufferView,
        scratch: &ScratchStorage,
        block: &mut HostBlock,
        events: &Vec<Event>,
        segment: &Segment,
    );
}

/// No two parameters share an id.
pub open spec fn unique_ids(params: Seq<ParamDesc>) -> bool {
    forall|k1: int, k2: int|
        0 <= k1 < k2 < params.len() ==> (#[trigger] params[k1]).id != (#[trigger] params[k2]).id
}

/// The default value of every parameter, in declaration order.
pub open spec fn defaults_of(params: Seq<ParamDesc>) -> Seq<u64> {
    Seq::new(params.len(), |i: int| params[i].default)
}

/// The index of the first parameter from `i` on whose id matches.
pub open spec fn spec_find_param_from(params: Seq<ParamDesc>, id: u32, i: int) -> Option<int>
    decreases params.len() - i when 0 <= i <= params.len()
{
    if i >= params.len() {
        None
    } else if params[i].id == id {
        Some(i)
    } else {
        spec_find_param_from(params, id, i + 1)
    }
}

/// The index of the parameter with this id, if any.
pub open spec fn spec_find_param(params: Seq<ParamDesc>, id: u32) -> Option<int> {
    spec_find_param_from(params, id, 0)
}

/// The channel writes a block's automation events amount to: one write per
/// event whose id names a parameter, in timeline order; events with unknown
/// ids write nothing.
pub open spec fn event_writes(params: Seq<ParamDesc>, events: Seq<Event>) -> Seq<(int, u64)>
    decreases events.len(),
{
    if events.len() == 0 {
        Seq::empty()
    } else {
        let rest = event_writes(params, events.drop_last());
        match events.last().event {
            EventType::ParamChange(change) => match spec_find_param(params, change.id) {
                Some(k) => rest.push((k, change.value)),
                None => rest,
            },
        }
    }
}

/// A timeline the core accepts: offsets never decrease and every offset lies
/// inside the block.
pub open spec fn timeline_ok(events: Seq<Event>, block_len: usize) -> bool {
    events_sorted(events) && events_within(events, block_len)
}

/// Why an engine cannot be built from a declaration.
#[derive(Clone, Copy, PartialEq, Eq, Structural, Debug)]
pub enum EngineError {
    /// Two parameters share an id.
    DuplicateParamId,
    /// The bus declaration is rejected; the payload says why.
    Topology(TopologyError),
}

/// Why activation fails. Either way no processing session starts.
#[derive(Clone, Copy, PartialEq, Eq, Structural, Debug)]
pub enum ActivateError {
    /// The proposed layout is not in the legal set.
    UnsupportedLayout,
    /// The scratch storage for this layout and block length would exceed the
    /// machine word.
    TooLarge,
}

/// Why a processing call is rejected. A rejected call has no effect at all.
#[derive(Clone, Copy, PartialEq, Eq, Structural, Debug)]
pub enum ProcessError {
    /// No activation happened first.
    Inactive,
    /// The host handed events out of order or outside the block.
    InvalidTimeline,
    /// The block's buffers do not fit the negotiated layout.
    Rejected(RouteError),
}

/// What one processing call did: the coalesced parameter changes delivered
/// to the processor, the sub-ranges the block was split into, and the routed
/// view the processor worked through.
pub struct BlockReport {
    pub delivered: Vec<(usize, u64)>,
    pub segments: Vec<Segment>,
    pub view: BufferView,
}

/// One plugin instance's runtime core: its bus topology, its parameter
/// channel, and the scratch storage of the active session.
pub struct Engine {
    topology: Topology,
    params: Vec<ParamDesc>,
    channel: ParamChannel,
    scratch: ScratchStorage,
    active: bool,
    max_block_len: usize,
    sample_rate: u64,
}

impl Engine {
    pub closed spec fn spec_topology(&self) -> Topology {
        self.topology
    }

    pub closed spec fn spec_params(&self) -> Seq<ParamDesc> {
        self.params@
    }

    pub closed spec fn spec_channel(&self) -> ParamChannel {
        self.channel
    }

    pub closed spec fn spec_scratch(&self) -> ScratchStorage {
        self.scratch
    }

    pub closed spec fn spec_active(&self) -> bool {
        self.active
    }

    pub closed spec fn spec_max_block_len(&self) -> usize {
        self.max_block_len
    }

    pub closed spec fn spec_sample_rate(&self) -> u64 {
        self.sample_rate
    }

    pub open spec fn wf(&self) -> bool {
        &&& self.spec_topology().wf()
        &&& self.spec_channel().wf()
        &&& self.spec_channel().values().len() == self.spec_params().len()
        &&& self.spec_scratch().wf()
    }

    /// Builds the core from the plugin's declaration. Fails exactly on a
    /// duplicate parameter id or a bus declaration the topology rejects;
    /// otherwise every parameter slot starts at its default, nothing is
    /// pending on either side, and the engine is inactive.
    pub fn new(buses: Vec<crate::bus::BusInfo>, layouts: Vec<Layout>, params: Vec<ParamDesc>) -> (r:
        Result<Engine, EngineError>)
        ensures
            r == Err::<Engine, EngineError>(EngineError::DuplicateParamId) <==> !unique_ids(
                params@,
            ),
            r == Err::<Engine, EngineError>(EngineError::Topology(TopologyError::TooManyBuses))
                <==> (unique_ids(params@) && 2 * buses@.len() > usize::MAX),
            r == Err::<Engine, EngineError>(EngineError::Topology(TopologyError::NoLayouts)) <==> (
            unique_ids(params@) && 2 * buses@.len() <= usize::MAX && layouts@.len() == 0),
            r == Err::<Engine, EngineError>(
                EngineError::Topology(TopologyError::LayoutSizeMismatch),
            ) <==> (unique_ids(params@) && 2 * buses@.len() <= usize::MAX && layouts@.len() > 0
                && exists|k: int|
                0 <= k < layouts@.len() && (#[trigger] layouts@[k]).formats@.len() != buses@.len()),
            r is Ok <==> (unique_ids(params@) && 2 * buses@.len() <= usize::MAX && layouts@.len()
                > 0 && forall|k: int|
                0 <= k < layouts@.len() ==> (#[trigger] layouts@[k]).formats@.len()
                    == buses@.len()),
            r is Ok ==> {
                let e = r->Ok_0;
                &&& e.wf()
                &&& unique_ids(params@)
                &&& e.spec_params() == params@
                &&& e.spec_topology().spec_buses() == buses@
                &&& e.spec_topology().spec_layouts() == layouts@
                &&& e.spec_topology().spec_active_index() == 0
                &&& e.spec_channel().values() == defaults_of(params@)
                &&& e.spec_channel().pending(Side::Model) == all_clear(params@.len())
                &&& e.spec_channel().pending(Side::Processor) == all_clear(params@.len())
                &&& !e.spec_active()
            },
    {
        let n = params.len();
        let mut k: usize = 0;
        while k < n
            invariant
                n == params@.len(),
                k <= n,
                forall|k1: int, k2: int|
                    0 <= k1 < k2 < k ==> (#[trigger] params@[k1]).id != (#[trigger] params@[k2]).id,
            decreases n - k,
        {
            let mut j: usize = 0;
            while j < k
                invariant
                    n == params@.len(),
                    j <= k < n,
                    forall|k1: int| 0 <= k1 < j ==> (#[trigger] params@[k1]).id != params@[k as int].id,
                decreases k - j,
            {
                if params[j].id == params[k].id {
                    return Err(EngineError::DuplicateParamId);
                }
                j = j + 1;
            }
            k = k + 1;
        }
        let topology = match Topology::new(buses, layouts) {
            Ok(t) => t,
            Err(e) => {
                return Err(EngineError::Topology(e));
            },
        };
        let mut defaults: Vec<u64> = Vec::new();
        let mut i: usize = 0;
        while i < n
            invariant
                n == params@.len(),
                i <= n,
                defaults@ == defaults_of(params@).subrange(0, i as int),
            decreases n - i,
        {
            defaults.push(params[i].default);
            proof {
                assert(defaults@ =~= defaults_of(params@).subrange(0, i + 1));
            }
            i = i + 1;
        }
        proof {
            assert(defaults@ =~= defaults_of(params@));
        }
        let channel = ParamChannel::new(defaults);
        let scratch = match ScratchStorage::new(0, 0) {
            Some(s) => s,
            None => {
                proof {
                    assert(false);
                }
                vstd::pervasive::unreached()
            },
        };
        Ok(
            Engine {
                topology,
                params,
                channel,
                scratch,
                active: false,
                max_block_len: 0,
                sample_rate: 0,
            },
        )
    }

    pub fn param_count(&self) -> (n: usize)
        ensures
            n == self.spec_params().len(),
    {
        self.params.len()
    }

    pub fn is_active(&self) -> (a: bool)
        ensures
            a == self.spec_active(),
    {
        self.active
    }

    /// The sample-rate word the host declared at activation, carried for the
    /// processor but never interpreted by the core.
    pub fn sample_rate(&self) -> (r: u64)
        ensures
            r == self.spec_sample_rate(),
    {
        self.sample_rate
    }

    /// The maximum block length the host declared at activation.
    pub fn max_block_len(&self) -> (n: usize)
        ensures
            n == self.spec_max_block_len(),
    {
        self.max_block_len
    }

    /// The index of the parameter with this id, if any.
    pub fn find_param(&self, id: u32) -> (r: Option<usize>)
        ensures
            r matches Some(k) ==> k < self.spec_params().len() && self.spec_params()[k as int].id
                == id && spec_find_param(self.spec_params(), id) == Some(k as int),
            r is None ==> spec_find_param(self.spec_params(), id) is None && forall|k: int|
                0 <= k < self.spec_params().len() ==> (#[trigger] self.spec_params()[k]).id != id,
    {
        let mut i: usize = 0;
        while i < self.params.len()
            invariant
                i <= self.spec_params().len(),
                spec_find_param(self.spec_params(), id) == spec_find_param_from(
                    self.spec_params(),
                    id,
                    i as int,
                ),
                forall|k: int| 0 <= k < i ==> (#[trigger] self.spec_params()[k]).id != id,
            decreases self.spec_params().len() - i,
        {
            if self.params[i].id == id {
                return Some(i);
            }
            i = i + 1;
        }
        None
    }

    /// The latest stored value of a parameter, polled or not: what an editor
    /// shows while edits are still in flight.
    pub fn get_param(&self, index: usize) -> (v: u64)
        requires
            self.wf(),
            index < self.spec_params().len(),
        ensures
            v == self.spec_channel().values()[index as int],
    {
        self.channel.get(index)
    }

    /// Stores a value on behalf of `writer` and marks it pending for the
    /// other side, as the channel does.
    pub fn set_param(&mut self, writer: Side, index: usize, value: u64)
        requires
            old(self).wf(),
            index < old(self).spec_params().len(),
        ensures
            final(self).wf(),
            final(self).spec_channel().values() == old(self).spec_channel().values().update(
                index as int,
                value,
            ),
            final(self).spec_channel().pending(other_side(writer)) == old(self).spec_channel().pending(other_side(writer)).update(index as int, true),
            final(self).spec_channel().pending(writer) == old(self).spec_channel().pending(writer),
            final(self).spec_topology() == old(self).spec_topology(),
            final(self).spec_params() == old(self).spec_params(),
            final(self).spec_scratch() == old(self).spec_scratch(),
            final(self).spec_active() == old(self).spec_active(),
    {
        self.channel.set(writer, index, value);
    }

    /// Drains what is pending for `side`, delivering each marked index once
    /// with its latest value, in index order.
    pub fn poll(&mut self, side: Side) -> (out: Vec<(usize, u64)>)
        requires
            old(self).wf(),
        ensures
            final(self).wf(),
            final(self).spec_channel().values() == old(self).spec_channel().values(),
            final(self).spec_channel().pending(other_side(side)) == old(self).spec_channel().pending(other_side(side)),
            final(self).spec_channel().pending(side) == all_clear(
                old(self).spec_channel().values().len(),
            ),
            delivered_exactly(
                old(self).spec_channel().pending(side),
                old(self).spec_channel().values(),
                out@,
            ),
            final(self).spec_topology() == old(self).spec_topology(),
            final(self).spec_params() == old(self).spec_params(),
            final(self).spec_scratch() == old(self).spec_scratch(),
            final(self).spec_active() == old(self).spec_active(),
    {
        self.channel.poll(side)
    }

    /// Marks every parameter pending for both sides, as a bulk state load
    /// must, so that each consumer resynchronizes against every value.
    pub fn mark_all(&mut self)
        requires
            old(self).wf(),
        ensures
            final(self).wf(),
            final(self).spec_channel().values() == old(self).spec_channel().values(),
            forall|i: int|
                0 <= i < final(self).spec_channel().values().len() ==> final(self).spec_channel().pending(Side::Model)[i] && final(self).spec_channel().pending(
                    Side::Processor,
                )[i],
            final(self).spec_topology() == old(self).spec_topology(),
            final(self).spec_params() == old(self).spec_params(),
            final(self).spec_scratch() == old(self).spec_scratch(),
            final(self).spec_active() == old(self).spec_active(),
    {
        self.channel.mark_all();
    }

    /// Proposes a layout; on success it becomes active, on failure every
    /// query keeps answering under the previous one. Never legal while a
    /// processing call is in flight — the caller serializes that.
    pub fn resolve(&mut self, candidate: &Layout) -> (ok: bool)
        requires
            old(self).wf(),
        ensures
            final(self).wf(),
            ok == old(self).spec_topology().spec_in_set(candidate.formats@),
            ok ==> final(self).spec_topology().spec_active() == candidate.formats@,
            !ok ==> final(self).spec_topology() == old(self).spec_topology(),
            final(self).spec_topology().spec_buses() == old(self).spec_topology().spec_buses(),
            final(self).spec_topology().spec_layouts() == old(self).spec_topology().spec_layouts(),
            forall|b: int|
                0 <= b < final(self).spec_topology().spec_bus_count() ==> final(self).spec_topology().spec_enabled(b) == old(self).spec_topology().spec_enabled(b),
            final(self).spec_channel() == old(self).spec_channel(),
            final(self).spec_params() == old(self).spec_params(),
            final(self).spec_scratch() == old(self).spec_scratch(),
            final(self).spec_active() == old(self).spec_active(),
    {
        self.topology.resolve(candidate)
    }

    /// The channel count of a bus under the active layout.
    pub fn channel_count(&self, bus: usize) -> (n: usize)
        requires
            self.wf(),
            bus < self.spec_topology().spec_bus_count(),
        ensures
            n == self.spec_topology().spec_channel_count(bus as int),
    {
        self.topology.channel_count(bus)
    }

    pub fn bus_count(&self) -> (n: usize)
        ensures
            n == self.spec_topology().spec_bus_count(),
    {
        self.topology.bus_count()
    }

    /// The direction of a bus.
    pub fn bus_dir(&self, bus: usize) -> (d: BusDir)
        requires
            bus < self.spec_topology().spec_bus_count(),
        ensures
            d == self.spec_topology().spec_buses()[bus as int].dir,
    {
        self.topology.bus_dir(bus)
    }

    /// The declared name of a bus.
    pub fn bus_name(&self, bus: usize) -> (name: &str)
        requires
            bus < self.spec_topology().spec_bus_count(),
        ensures
            name@ == self.spec_topology().spec_buses()[bus as int].name@,
    {
        self.topology.bus_name(bus)
    }

    /// Enables or disables a bus; a disabled bus keeps its index but
    /// contributes no channels.
    pub fn set_bus_enabled(&mut self, bus: usize, on: bool)
        requires
            old(self).wf(),
            bus < old(self).spec_topology().spec_bus_count(),
        ensures
            final(self).wf(),
            final(self).spec_topology().spec_enabled(bus as int) == on,
            forall|b: int|
                0 <= b < final(self).spec_topology().spec_bus_count() && b != bus ==> final(self).spec_topology().spec_enabled(b) == old(self).spec_topology().spec_enabled(b),
            final(self).spec_topology().spec_buses() == old(self).spec_topology().spec_buses(),
            final(self).spec_topology().spec_layouts() == old(self).spec_topology().spec_layouts(),
            final(self).spec_topology().spec_active_index() == old(self).spec_topology().spec_active_index(),
            final(self).spec_channel() == old(self).spec_channel(),
            final(self).spec_params() == old(self).spec_params(),
            final(self).spec_active() == old(self).spec_active(),
    {
        self.topology.set_bus_enabled(bus, on);
    }

    /// Starts a processing session: resolves the proposed layout, then sizes
    /// the scratch storage once for the worst case — every input channel
    /// aliased — which is the block length times the smaller of the input
    /// and output channel totals. Succeeds exactly when the layout is legal
    /// and that scratch size fits the machine word; otherwise it fails
    /// before any processing could run, either on a layout outside the legal
    /// set (the engine is then exactly as before) or on the scratch size
    /// (the layout is then resolved but no session starts). Callers drain
    /// the model side before building their processor, so a session starts
    /// from current values.
    pub fn activate(&mut self, layout: &Layout, sample_rate: u64, max_block_len: usize) -> (r:
        Result<(), ActivateError>)
        requires
            old(self).wf(),
        ensures
            final(self).wf(),
            r == Err::<(), ActivateError>(ActivateError::UnsupportedLayout) <==> !old(self).spec_topology().spec_in_set(layout.formats@),
            r == Err::<(), ActivateError>(ActivateError::UnsupportedLayout) ==> *final(self) == *old(self),
            r is Ok || r == Err::<(), ActivateError>(ActivateError::TooLarge) ==> final(self).spec_topology().spec_active() == layout.formats@,
            r matches Ok(_) ==> {
                &&& final(self).spec_active()
                &&& final(self).spec_max_block_len() == max_block_len
                &&& final(self).spec_sample_rate() == sample_rate
                &&& final(self).spec_scratch().spec_max_block_len() == max_block_len
                &&& final(self).spec_scratch().spec_slots() as int == spec_min(
                    final(self).spec_topology().spec_input_channel_total(),
                    final(self).spec_topology().spec_output_channel_total(),
                )
            },
            r == Err::<(), ActivateError>(ActivateError::TooLarge) ==> !final(self).spec_active(),
            final(self).spec_topology().spec_buses() == old(self).spec_topology().spec_buses(),
            final(self).spec_topology().spec_layouts() == old(self).spec_topology().spec_layouts(),
            forall|b: int|
                0 <= b < final(self).spec_topology().spec_bus_count() ==> final(self).spec_topology().spec_enabled(b) == old(self).spec_topology().spec_enabled(b),
            r is Ok <==> (old(self).spec_topology().spec_in_set(layout.formats@) && spec_min(
                final(self).spec_topology().spec_input_channel_total(),
                final(self).spec_topology().spec_output_channel_total(),
            ) * max_block_len <= usize::MAX),
            r == Err::<(), ActivateError>(ActivateError::TooLarge) <==> (old(self).spec_topology().spec_in_set(layout.formats@) && spec_min(
                final(self).spec_topology().spec_input_channel_total(),
                final(self).spec_topology().spec_output_channel_total(),
            ) * max_block_len > usize::MAX),
            final(self).spec_channel() == old(self).spec_channel(),
            final(self).spec_params() == old(self).spec_params(),
    {
        if !self.topology.resolve(layout) {
            return Err(ActivateError::UnsupportedLayout);
        }
        let in_total = self.topology.input_channel_total();
        let out_total = self.topology.output_channel_total();
        let slots = if in_total < out_total {
            in_total
        } else {
            out_total
        };
        match ScratchStorage::new(max_block_len, slots) {
            Some(s) => {
                self.scratch = s;
                self.active = true;
                self.max_block_len = max_block_len;
                self.sample_rate = sample_rate;
                Ok(())
            },
            None => {
                self.active = false;
                Err(ActivateError::TooLarge)
            },
        }
    }

    /// Ends the session. The scratch storage is only resized by the next
    /// activation; everything else stays.
    pub fn deactivate(&mut self)
        requires
            old(self).wf(),
        ensures
            final(self).wf(),
            !final(self).spec_active(),
            final(self).spec_topology() == old(self).spec_topology(),
            final(self).spec_channel() == old(self).spec_channel(),
            final(self).spec_params() == old(self).spec_params(),
            final(self).spec_scratch() == old(self).spec_scratch(),
    {
        self.active = false;
    }

    /// Clears processor-side state without deactivating: delivers every
    /// change still pending for the processor, then tells it to reset.
    pub fn reset<P: Processor>(&mut self, processor: &mut P)
        requires
            old(self).wf(),
        ensures
            final(self).wf(),
            final(self).spec_channel().values() == old(self).spec_channel().values(),
            final(self).spec_channel().pending(Side::Model) == old(self).spec_channel().pending(
                Side::Model,
            ),
            final(self).spec_channel().pending(Side::Processor) == all_clear(
                old(self).spec_channel().values().len(),
            ),
            final(self).spec_topology() == old(self).spec_topology(),
            final(self).spec_params() == old(self).spec_params(),
            final(self).spec_scratch() == old(self).spec_scratch(),
            final(self).spec_active() == old(self).spec_active(),
    {
        let delivered = self.channel.poll(Side::Processor);
        let mut k: usize = 0;
        while k < delivered.len()
            invariant
                self.wf(),
                k <= delivered@.len(),
                self.spec_params().len() == self.spec_channel().values().len(),
                forall|i: int|
                    0 <= i < delivered@.len() ==> (#[trigger] delivered@[i]).0
                        < self.spec_params().len(),
            decreases delivered@.len() - k,
        {
            let (index, value) = delivered[k];
            processor.set_param(self.params[index].id, value);
            k = k + 1;
        }
        processor.reset();
    }
}


/// Checks what the core demands of a host timeline: offsets that never
/// decrease, each inside the block.
fn check_timeline(events: &Vec<Event>, block_len: usize) -> (ok: bool)
    ensures
        ok == timeline_ok(events@, block_len),
{
    let mut i: usize = 0;
    while i < events.len()
        invariant
            i <= events@.len(),
            forall|p: int, q: int|
                0 <= p < q < i ==> (#[trigger] events@[p]).offset <= (#[trigger] events@[q]).offset,
            forall|p: int| 0 <= p < i ==> (#[trigger] events@[p]).offset < block_len,
        decreases events@.len() - i,
    {
        if events[i].offset >= block_len {
            return false;
        }
        if i > 0 && events[i - 1].offset > events[i].offset {
            return false;
        }
        i = i + 1;
    }
    true
}

impl Engine {
    /// Runs one block: drains the parameter channel into the processor,
    /// stores the host's automation events so the model side hears of them,
    /// splits the block at the event offsets, routes the host's buffers
    /// aliasing-safely, and invokes the processor on each sub-range.
    ///
    /// Validation comes first and a rejected block has no effect: the
    /// channel and the scratch contents stay exactly as they were. On
    /// success the report says what happened — every parameter index marked
    /// for the processor since the last drain was delivered exactly once,
    /// with its latest value; each automation event with a known id was
    /// written to its slot and marked pending for the model, in timeline
    /// order (last value wins); the sub-ranges tile the block at the event
    /// offsets; and the view is the routed one the processor worked through.
    #[verifier::rlimit(100)]
    #[verifier::spinoff_prover]
    pub fn process<P: Processor>(
        &mut self,
        processor: &mut P,
        block: HostBlock,
        events: &Vec<Event>,
    ) -> (r: Result<(HostBlock, BlockReport), ProcessError>)
        requires
            old(self).wf(),
            block.wf(),
        ensures
            final(self).wf(),
            final(self).spec_params() == old(self).spec_params(),
            final(self).spec_topology() == old(self).spec_topology(),
            final(self).spec_active() == old(self).spec_active(),
            final(self).spec_max_block_len() == old(self).spec_max_block_len(),
            final(self).spec_sample_rate() == old(self).spec_sample_rate(),
            final(self).spec_scratch().spec_max_block_len() == old(self).spec_scratch().spec_max_block_len(),
            final(self).spec_scratch().spec_slots() == old(self).spec_scratch().spec_slots(),
            r == Err::<(HostBlock, BlockReport), ProcessError>(ProcessError::Inactive) <==> !old(self).spec_active(),
            r == Err::<(HostBlock, BlockReport), ProcessError>(ProcessError::InvalidTimeline)
                <==> (old(self).spec_active() && !timeline_ok(events@, block.block_len)),
            r == Err::<(HostBlock, BlockReport), ProcessError>(
                ProcessError::Rejected(RouteError::BlockTooLong),
            ) <==> (old(self).spec_active() && timeline_ok(events@, block.block_len)
                && block.block_len > old(self).spec_scratch().spec_max_block_len()),
            r == Err::<(HostBlock, BlockReport), ProcessError>(
                ProcessError::Rejected(RouteError::ScratchTooSmall),
            ) <==> (old(self).spec_active() && timeline_ok(events@, block.block_len)
                && block.block_len <= old(self).spec_scratch().spec_max_block_len() && (old(self).spec_scratch().spec_slots() as int) < spec_min(
                old(self).spec_topology().spec_input_channel_total(),
                old(self).spec_topology().spec_output_channel_total(),
            )),
            r == Err::<(HostBlock, BlockReport), ProcessError>(
                ProcessError::Rejected(RouteError::ShapeMismatch),
            ) <==> (old(self).spec_active() && timeline_ok(events@, block.block_len)
                && block.block_len <= old(self).spec_scratch().spec_max_block_len() && (old(self).spec_scratch().spec_slots() as int) >= spec_min(
                old(self).spec_topology().spec_input_channel_total(),
                old(self).spec_topology().spec_output_channel_total(),
            ) && !shape_ok(&old(self).spec_topology(), &block)),
            r is Ok <==> (old(self).spec_active() && timeline_ok(events@, block.block_len)
                && block.block_len <= old(self).spec_scratch().spec_max_block_len() && (old(self).spec_scratch().spec_slots() as int) >= spec_min(
                old(self).spec_topology().spec_input_channel_total(),
                old(self).spec_topology().spec_output_channel_total(),
            ) && shape_ok(&old(self).spec_topology(), &block)),
            r is Err ==> final(self).spec_channel() == old(self).spec_channel() && final(self).spec_scratch().spec_data() == old(self).spec_scratch().spec_data(),
            r matches Ok(p) ==> {
                &&& routed(
                    &old(self).spec_topology(),
                    &final(self).spec_scratch(),
                    &block,
                    &p.1.view,
                )
                &&& valid_split(block.block_len, events@, p.1.segments@)
                &&& final(self).spec_channel().pending(Side::Processor) == all_clear(
                    old(self).spec_channel().values().len(),
                )
                &&& delivered_exactly(
                    old(self).spec_channel().pending(Side::Processor),
                    old(self).spec_channel().values(),
                    p.1.delivered@,
                )
                &&& ({
                    let w = event_writes(old(self).spec_params(), events@);
                    let after = apply_writes(
                        old(self).spec_channel().values(),
                        old(self).spec_channel().pending(Side::Model),
                        w,
                    );
                    &&& final(self).spec_channel().values() == after.0
                    &&& final(self).spec_channel().pending(Side::Model) == after.1
                })
            },
    {
        if !self.active {
            return Err(ProcessError::Inactive);
        }
        if !check_timeline(events, block.block_len) {
            return Err(ProcessError::InvalidTimeline);
        }
        let view = match route(&self.topology, &mut self.scratch, &block) {
            Ok(view) => view,
            Err(e) => {
                return Err(ProcessError::Rejected(e));
            },
        };
        let delivered = self.channel.poll(Side::Processor);
        let mut k: usize = 0;
        while k < delivered.len()
            invariant
                self.wf(),
                k <= delivered@.len(),
                self.spec_params().len() == self.spec_channel().values().len(),
                forall|i: int|
                    0 <= i < delivered@.len() ==> (#[trigger] delivered@[i]).0
                        < self.spec_params().len(),
            decreases delivered@.len() - k,
        {
            let (index, value) = delivered[k];
            processor.set_param(self.params[index].id, value);
            k = k + 1;
        }
        let ghost vals0 = self.spec_channel().values();
        let ghost pend_model0 = self.spec_channel().pending(Side::Model);
        let ghost mid = *self;
        let mut e: usize = 0;
        while e < events.len()
            invariant
                self.wf(),
                e <= events@.len(),
                self.spec_params() == mid.spec_params(),
                self.spec_params().len() == self.spec_channel().values().len(),
                self.spec_topology() == mid.spec_topology(),
                self.spec_scratch() == mid.spec_scratch(),
                self.spec_active() == mid.spec_active(),
                self.spec_max_block_len() == mid.spec_max_block_len(),
                self.spec_sample_rate() == mid.spec_sample_rate(),
                self.spec_channel().pending(Side::Processor) == mid.spec_channel().pending(
                    Side::Processor,
                ),
                vals0 == mid.spec_channel().values(),
                pend_model0 == mid.spec_channel().pending(Side::Model),
                ({
                    let w = event_writes(self.spec_params(), events@.take(e as int));
                    let after = apply_writes(vals0, pend_model0, w);
                    &&& self.spec_channel().values() == after.0
                    &&& self.spec_channel().pending(Side::Model) == after.1
                }),
            decreases events@.len() - e,
        {
            let ghost w_pre = event_writes(self.spec_params(), events@.take(e as int));
            let event = events[e];
            match event.event {
                EventType::ParamChange(change) => {
                    match self.find_param(change.id) {
                        Some(index) => {
                            self.channel.set(Side::Processor, index, change.value);
                        },
                        None => {},
                    }
                },
            }
            proof {
                assert(events@.take(e + 1).drop_last() =~= events@.take(e as int));
                assert(events@.take(e + 1).last() == events@[e as int]);
                let w_post = event_writes(self.spec_params(), events@.take(e + 1));
                match events@[e as int].event {
                    EventType::ParamChange(change) => {
                        match spec_find_param(self.spec_params(), change.id) {
                            Some(k) => {
                                assert(w_post == w_pre.push((k, change.value)));
                                assert(w_pre.push((k, change.value)).drop_last() =~= w_pre);
                            },
                            None => {
                                assert(w_post == w_pre);
                            },
                        }
                    },
                }
            }
            e = e + 1;
        }
        proof {
            assert(events@.take(events@.len() as int) =~= events@);
        }
        let segments = split_at_events(block.block_len, events);
        let mut block = block;
        let mut s: usize = 0;
        while s < segments.len()
            invariant
                s <= segments@.len(),
            decreases segments@.len() - s,
        {
            let segment = segments[s];
            processor.process(&view, &self.scratch, &mut block, events, &segment);
            s = s + 1;
        }
        let ghost dseq = delivered@;
        let report = BlockReport { delivered, segments, view };
        proof {
            assert(report.delivered@ == dseq);
            assert(delivered_exactly(
                old(self).spec_channel().pending(Side::Processor),
                old(self).spec_channel().values(),
                report.delivered@,
            ));
        }
        Ok((block, report))
    }
}

} // verus!
