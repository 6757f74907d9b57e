//! The aliasing-safe channel-buffer router.
//!
//! Once per block the host hands over its channel buffers; the adapter at the
//! process-call boundary checks the raw pointers once, dedups them into a
//! table of distinct buffers, and describes each logical channel by its table
//! index. Two channels alias exactly when they carry the same index. The
//! router resolves those channels against the active layout, copies every
//! input channel that aliases an output into pre-sized scratch storage, and
//! hands back a view through which every input of a pure input bus is
//! distinct from every output — whatever the host did with its memory. An
//! in-place capable bus keeps its single read-write buffer: both access modes
//! own that memory legitimately.
//!
//! Samples are opaque 32-bit words; copying them is all the router ever does
//! with them.

use vstd::prelude::*;

use crate::bus::{BusDir, Topology};

verus! {

/// One block's worth of host-supplied channel memory, pointers already
/// resolved into indices into a table of distinct buffers.
pub struct HostBlock {
    /// Samples in this block.
    pub block_len: usize,
    /// The distinct physical channel buffers, each `block_len` samples.
    pub buffers: Vec<Vec<u32>>,
    /// Per flattened input channel, in bus order: which buffer it lives in.
    pub input_channels: Vec<usize>,
    /// Per flattened output channel, in bus order: which buffer it lives in.
    pub output_channels: Vec<usize>,
    /// Channel count the host declared for each of its input buses.
    pub input_bus_counts: Vec<usize>,
    /// Channel count the host declared for each of its output buses.
    pub output_bus_counts: Vec<usize>,
}

impl HostBlock {
    /// The boundary validity the adapter establishes when it builds the
    /// block: every channel points into the buffer table and every buffer
    /// spans the block.
    pub open spec fn wf(&self) -> bool {
        &&& forall|c: int|
            0 <= c < self.input_channels@.len() ==> ((#[trigger] self.input_channels@[c]) as int)
                < self.buffers@.len()
        &&& forall|c: int|
            0 <= c < self.output_channels@.len() ==> ((#[trigger] self.output_channels@[c]) as int)
                < self.buffers@.len()
        &&& forall|b: int|
            0 <= b < self.buffers@.len() ==> (#[trigger] self.buffers@[b])@.len() == self.block_len
    }
}

/// Reusable storage for de-aliased input channels: `slots` regions of
/// `max_block_len` samples each, allocated once at activation and never
/// resized while a session is active.
pub struct ScratchStorage {
    data: Vec<u32>,
    max_block_len: usize,
    slots: usize,
}

/// A slot's region lies inside storage sized `slots * len`.
proof fn lemma_slot_region(slot: int, slots: int, len: int)
    requires
        0 <= slot < slots,
        0 <= len,
    ensures
        0 <= slot * len,
        slot * len + len <= slots * len,
{
    assert(0 <= slot * len && slot * len + len <= slots * len) by (nonlinear_arith)
        requires
            0 <= slot < slots,
            0 <= len,
    ;
}

/// The product of two machine words fits in a double-width word.
proof fn lemma_word_product_fits(a: int, b: int)
    requires
        0 <= a <= 0xffff_ffff_ffff_ffff,
        0 <= b <= 0xffff_ffff_ffff_ffff,
    ensures
        a * b <= 0xffff_ffff_ffff_ffff_ffff_ffff_ffff_ffff,
{
    assert(a * b <= 0xffff_ffff_ffff_ffff_ffff_ffff_ffff_ffff) by (nonlinear_arith)
        requires
            0 <= a <= 0xffff_ffff_ffff_ffff,
            0 <= b <= 0xffff_ffff_ffff_ffff,
    ;
}

impl ScratchStorage {
    pub closed spec fn spec_data(&self) -> Seq<u32> {
        self.data@
    }

    pub closed spec fn spec_max_block_len(&self) -> usize {
        self.max_block_len
    }

    pub closed spec fn spec_slots(&self) -> usize {
        self.slots
    }

    pub open spec fn wf(&self) -> bool {
        self.spec_data().len() == self.spec_slots() * self.spec_max_block_len()
    }

    /// The sample at position `i` of slot `slot`.
    pub open spec fn spec_at(&self, slot: int, i: int) -> u32 {
        self.spec_data()[slot * self.spec_max_block_len() + i]
    }

    /// Storage with the given shape, zero-filled. `None` exactly when the
    /// requested size exceeds the machine word: activation fails before any
    /// processing could run.
    pub fn new(max_block_len: usize, slots: usize) -> (r: Option<ScratchStorage>)
        ensures
            r is Some <==> slots * max_block_len <= usize::MAX,
            r matches Some(s) ==> {
                &&& s.wf()
                &&& s.spec_max_block_len() == max_block_len
                &&& s.spec_slots() == slots
                &&& forall|j: int| 0 <= j < s.spec_data().len() ==> s.spec_data()[j] == 0
            },
    {
        proof {
            lemma_word_product_fits(slots as int, max_block_len as int);
        }
        let total128: u128 = (slots as u128) * (max_block_len as u128);
        if total128 > usize::MAX as u128 {
            return None;
        }
        let total: usize = slots * max_block_len;
        let mut data: Vec<u32> = Vec::new();
        let mut i: usize = 0;
        while i < total
            invariant
                i <= total,
                data@.len() == i,
                forall|j: int| 0 <= j < i ==> data@[j] == 0,
            decreases total - i,
        {
            data.push(0);
            i = i + 1;
        }
        Some(ScratchStorage { data, max_block_len, slots })
    }

    pub fn max_block_len(&self) -> (n: usize)
        ensures
            n == self.spec_max_block_len(),
    {
        self.max_block_len
    }

    pub fn slots(&self) -> (n: usize)
        ensures
            n == self.spec_slots(),
    {
        self.slots
    }

    /// Copies `src` into slot `slot`, touching nothing outside the copied
    /// range: a bounded copy into pre-owned memory, never an allocation.
    pub fn load(&mut self, slot: usize, src: &Vec<u32>)
        requires
            old(self).wf(),
            slot < old(self).spec_slots(),
            src@.len() <= old(self).spec_max_block_len(),
        ensures
            final(self).wf(),
            final(self).spec_max_block_len() == old(self).spec_max_block_len(),
            final(self).spec_slots() == old(self).spec_slots(),
            forall|i: int| 0 <= i < src@.len() ==> final(self).spec_at(slot as int, i) == src@[i],
            forall|j: int|
                0 <= j < old(self).spec_data().len() && !(slot * old(self).spec_max_block_len() <= j
                    < slot * old(self).spec_max_block_len() + src@.len()) ==> final(
                self).spec_data()[j] == old(self).spec_data()[j],
    {
        let dlen = self.data.len();
        proof {
            lemma_slot_region(slot as int, self.spec_slots() as int, self.spec_max_block_len() as int);
            assert(slot * self.spec_max_block_len() + self.spec_max_block_len() <= dlen);
        }
        let base: usize = slot * self.max_block_len;
        let mut i: usize = 0;
        let n = src.len();
        while i < n
            invariant
                i <= n,
                n == src@.len(),
                base == slot * old(self).spec_max_block_len(),
                base + n <= self.spec_data().len(),
                base + n <= usize::MAX,
                self.wf(),
                self.spec_max_block_len() == old(self).spec_max_block_len(),
                self.spec_slots() == old(self).spec_slots(),
                self.spec_data().len() == old(self).spec_data().len(),
                forall|k: int| 0 <= k < i ==> self.spec_data()[base + k] == src@[k],
                forall|j: int|
                    0 <= j < old(self).spec_data().len() && !(base <= j < base + n) ==> self.spec_data()[j]
                        == old(self).spec_data()[j],
            decreases n - i,
        {
            self.data.set(base + i, src[i]);
            i = i + 1;
        }
    }

    /// Reads one sample out of a slot.
    pub fn read(&self, slot: usize, i: usize) -> (v: u32)
        requires
            self.wf(),
            slot < self.spec_slots(),
            i < self.spec_max_block_len(),
        ensures
            v == self.spec_at(slot as int, i as int),
    {
        let dlen = self.data.len();
        proof {
            lemma_slot_region(slot as int, self.spec_slots() as int, self.spec_max_block_len() as int);
            assert(slot * self.spec_max_block_len() + self.spec_max_block_len() <= dlen);
        }
        self.data[slot * self.max_block_len + i]
    }
}

/// Where an input channel's samples are read from after routing: the host's
/// own buffer, or a scratch slot holding a copy taken at route time.
#[derive(Clone, Copy, PartialEq, Eq, Structural, Debug)]
pub enum ChannelSource {
    Host(usize),
    Scratch(usize),
}

/// The routed view of one block: per flattened channel, where its samples
/// live; per bus, which flattened channels are its. Valid for exactly one
/// processing call.
pub struct BufferView {
    /// Samples in this block.
    pub block_len: usize,
    /// Per flattened input channel, where to read.
    pub inputs: Vec<ChannelSource>,
    /// Per flattened output channel, which host buffer to write.
    pub outputs: Vec<usize>,
    /// Per bus, the half-open range of flattened input channels it owns
    /// (empty unless the bus has input direction and is enabled).
    pub input_ranges: Vec<(usize, usize)>,
    /// Per bus, the half-open range of flattened output channels it owns.
    pub output_ranges: Vec<(usize, usize)>,
}

impl BufferView {
    /// Every source the view names exists in the scratch storage or the
    /// block it was routed from.
    pub open spec fn sources_valid(&self, scratch: &ScratchStorage, block: &HostBlock) -> bool {
        &&& self.block_len == block.block_len
        &&& self.block_len <= scratch.spec_max_block_len()
        &&& forall|c: int|
            0 <= c < self.inputs@.len() ==> match #[trigger] self.inputs@[c] {
                ChannelSource::Host(b) => b < block.buffers@.len(),
                ChannelSource::Scratch(s) => s < scratch.spec_slots(),
            }
        &&& forall|c: int|
            0 <= c < self.outputs@.len() ==> ((#[trigger] self.outputs@[c]) as int)
                < block.buffers@.len()
    }

    /// The sample an input channel yields, wherever it was routed.
    pub open spec fn spec_input_sample(
        &self,
        scratch: &ScratchStorage,
        block: &HostBlock,
        c: int,
        i: int,
    ) -> u32 {
        match self.inputs@[c] {
            ChannelSource::Host(b) => block.buffers@[b as int]@[i],
            ChannelSource::Scratch(s) => scratch.spec_at(s as int, i),
        }
    }

    /// Reads sample `i` of flattened input channel `c`.
    pub fn read_input(
        &self,
        scratch: &ScratchStorage,
        block: &HostBlock,
        c: usize,
        i: usize,
    ) -> (v: u32)
        requires
            self.sources_valid(scratch, block),
            scratch.wf(),
            block.wf(),
            c < self.inputs@.len(),
            i < self.block_len,
        ensures
            v == self.spec_input_sample(scratch, block, c as int, i as int),
    {
        match self.inputs[c] {
            ChannelSource::Host(b) => block.buffers[b][i],
            ChannelSource::Scratch(s) => scratch.read(s, i),
        }
    }

    /// Writes sample `i` of flattened output channel `c`, touching nothing
    /// but that one position of that one host buffer — in particular, never
    /// the scratch copies that de-aliased input channels read from.
    pub fn write_output(&self, block: &mut HostBlock, c: usize, i: usize, v: u32)
        requires
            old(block).wf(),
            c < self.outputs@.len(),
            ((self.outputs@[c as int]) as int) < old(block).buffers@.len(),
            i < old(block).block_len,
        ensures
            final(block).block_len == old(block).block_len,
            final(block).input_channels == old(block).input_channels,
            final(block).output_channels == old(block).output_channels,
            final(block).input_bus_counts == old(block).input_bus_counts,
            final(block).output_bus_counts == old(block).output_bus_counts,
            final(block).buffers@.len() == old(block).buffers@.len(),
            ({
                let b = self.outputs@[c as int] as int;
                final(block).buffers@[b]@ == old(block).buffers@[b]@.update(i as int, v)
            }),
            forall|b: int|
                0 <= b < old(block).buffers@.len() && b != self.outputs@[c as int] as int
                    ==> final(block).buffers@[b] == old(block).buffers@[b],
            final(block).wf(),
    {
        let b = self.outputs[c];
        let mut chan = block.buffers.remove(b);
        chan.set(i, v);
        block.buffers.insert(b, chan);
        proof {
            assert(block.buffers@ =~= old(block).buffers@.update(
                b as int,
                block.buffers@[b as int],
            ));
        }
    }

    /// Reads back sample `i` of flattened output channel `c`.
    pub fn read_output(&self, block: &HostBlock, c: usize, i: usize) -> (v: u32)
        requires
            block.wf(),
            c < self.outputs@.len(),
            ((self.outputs@[c as int]) as int) < block.buffers@.len(),
            i < block.block_len,
        ensures
            v == block.buffers@[self.outputs@[c as int] as int]@[i as int],
    {
        block.buffers[self.outputs[c]][i]
    }
}

/// Distinct values all drawn from one sequence are no more numerous than it.
proof fn lemma_distinct_values_bounded(s: Seq<usize>, t: Seq<usize>)
    requires
        s.no_duplicates(),
        forall|k: int| 0 <= k < s.len() ==> t.contains(#[trigger] s[k]),
    ensures
        s.len() <= t.len(),
{
    broadcast use vstd::seq_lib::seq_to_set_is_finite;
    broadcast use vstd::set::group_set_axioms;

    s.unique_seq_to_set();
    t.lemma_cardinality_of_set();
    assert(s.to_set().subset_of(t.to_set())) by {
        assert forall|x: usize| s.to_set().contains(x) implies t.to_set().contains(x) by {
            assert(s.contains(x));
            assert(t.contains(x));
        }
    }
    vstd::set_lib::lemma_len_subset(s.to_set(), t.to_set());
}

/// The smaller of two counts.
pub open spec fn spec_min(a: int, b: int) -> int {
    if a < b {
        a
    } else {
        b
    }
}

/// Whether the host-declared input bus channel counts from bus `i` on, at
/// ordinal `k` of the host's input bus list, match the active layout.
pub open spec fn input_shape_ok_from(t: &Topology, block: &HostBlock, i: int, k: int) -> bool
    decreases t.spec_bus_count() - i when 0 <= i <= t.spec_bus_count()
{
    if i >= t.spec_bus_count() {
        k == block.input_bus_counts@.len()
    } else if t.spec_buses()[i].dir.spec_is_input() {
        &&& 0 <= k < block.input_bus_counts@.len()
        &&& block.input_bus_counts@[k] == t.spec_channel_count(i)
        &&& input_shape_ok_from(t, block, i + 1, k + 1)
    } else {
        input_shape_ok_from(t, block, i + 1, k)
    }
}

/// The output-side counterpart of `input_shape_ok_from`.
pub open spec fn output_shape_ok_from(t: &Topology, block: &HostBlock, i: int, k: int) -> bool
    decreases t.spec_bus_count() - i when 0 <= i <= t.spec_bus_count()
{
    if i >= t.spec_bus_count() {
        k == block.output_bus_counts@.len()
    } else if t.spec_buses()[i].dir.spec_is_output() {
        &&& 0 <= k < block.output_bus_counts@.len()
        &&& block.output_bus_counts@[k] == t.spec_channel_count(i)
        &&& output_shape_ok_from(t, block, i + 1, k + 1)
    } else {
        output_shape_ok_from(t, block, i + 1, k)
    }
}

/// Whether the host's channel configuration for this block matches the
/// active layout: bus for bus the declared channel counts agree, and the
/// flattened channel lists have exactly the layout's totals.
pub open spec fn shape_ok(t: &Topology, block: &HostBlock) -> bool {
    &&& input_shape_ok_from(t, block, 0, 0)
    &&& output_shape_ok_from(t, block, 0, 0)
    &&& block.input_channels@.len() == t.spec_input_channel_total()
    &&& block.output_channels@.len() == t.spec_output_channel_total()
}

/// Whether some input channel of a pure input bus shares its buffer with an
/// output channel: only then does routing have to copy anything.
pub open spec fn has_aliased_input(t: &Topology, block: &HostBlock) -> bool {
    exists|c: int, i: int|
        #[trigger] t.input_channel_in_bus(c, i) && t.spec_buses()[i].dir is In
            && block.output_channels@.contains(block.input_channels@[c])
}

fn check_input_shape(t: &Topology, block: &HostBlock) -> (ok: bool)
    requires
        t.wf(),
    ensures
        ok == input_shape_ok_from(t, block, 0, 0),
{
    let count = t.bus_count();
    let mut i: usize = 0;
    let mut k: usize = 0;
    while i < count
        invariant
            t.wf(),
            count == t.spec_bus_count(),
            i <= count,
            k <= block.input_bus_counts@.len(),
            input_shape_ok_from(t, block, 0, 0) == input_shape_ok_from(t, block, i as int, k as int),
        decreases count - i,
    {
        if t.bus_dir(i).is_input() {
            if k >= block.input_bus_counts.len() {
                return false;
            }
            if block.input_bus_counts[k] != t.channel_count(i) {
                return false;
            }
            k = k + 1;
        }
        i = i + 1;
    }
    k == block.input_bus_counts.len()
}

fn check_output_shape(t: &Topology, block: &HostBlock) -> (ok: bool)
    requires
        t.wf(),
    ensures
        ok == output_shape_ok_from(t, block, 0, 0),
{
    let count = t.bus_count();
    let mut i: usize = 0;
    let mut k: usize = 0;
    while i < count
        invariant
            t.wf(),
            count == t.spec_bus_count(),
            i <= count,
            k <= block.output_bus_counts@.len(),
            output_shape_ok_from(t, block, 0, 0) == output_shape_ok_from(t, block, i as int, k as int),
        decreases count - i,
    {
        if t.bus_dir(i).is_output() {
            if k >= block.output_bus_counts.len() {
                return false;
            }
            if block.output_bus_counts[k] != t.channel_count(i) {
                return false;
            }
            k = k + 1;
        }
        i = i + 1;
    }
    k == block.output_bus_counts.len()
}

/// Per flattened input channel the owning bus's direction, and per bus its
/// range of flattened input channels.
fn build_input_plan(t: &Topology) -> (r: (Vec<BusDir>, Vec<(usize, usize)>))
    requires
        t.wf(),
    ensures
        r.0@.len() == t.spec_input_channel_total(),
        r.1@.len() == t.spec_bus_count(),
        forall|i: int|
            0 <= i < t.spec_bus_count() ==> (#[trigger] r.1@[i]).0 == t.spec_input_channels_below(i)
                && r.1@[i].1 == t.spec_input_channels_below(i + 1),
        forall|c: int, i: int|
            #[trigger] t.input_channel_in_bus(c, i) ==> r.0@[c] == t.spec_buses()[i].dir,
{
    let count = t.bus_count();
    let mut dirs: Vec<BusDir> = Vec::new();
    let mut ranges: Vec<(usize, usize)> = Vec::new();
    let mut i: usize = 0;
    while i < count
        invariant
            t.wf(),
            count == t.spec_bus_count(),
            i <= count,
            dirs@.len() == t.spec_input_channels_below(i as int),
            ranges@.len() == i,
            forall|b: int|
                0 <= b < i ==> (#[trigger] ranges@[b]).0 == t.spec_input_channels_below(b)
                    && ranges@[b].1 == t.spec_input_channels_below(b + 1),
            forall|c: int, b: int|
                #[trigger] t.input_channel_in_bus(c, b) && b < i ==> dirs@[c] == t.spec_buses()[b].dir,
        decreases count - i,
    {
        proof {
            t.lemma_channels_below_bound(i as int);
        }
        let d = t.bus_dir(i);
        let start = dirs.len();
        let ghost prefix = dirs@;
        if d.is_input() {
            let cc = t.channel_count(i);
            let mut j: usize = 0;
            while j < cc
                invariant
                    j <= cc,
                    dirs@.len() == start + j,
                    prefix.len() == start,
                    forall|c: int| 0 <= c < start ==> dirs@[c] == prefix[c],
                    forall|c: int| start <= c < start + j ==> dirs@[c] == d,
                decreases cc - j,
            {
                dirs.push(d);
                j = j + 1;
            }
        }
        let end = dirs.len();
        ranges.push((start, end));
        proof {
            assert(t.spec_input_channels_below(i + 1) == t.spec_input_channels_below(i as int)
                + if t.spec_buses()[i as int].dir.spec_is_input() {
                    t.spec_channel_count(i as int) as int
                } else {
                    0
                });
            assert forall|c: int, b: int|
                #[trigger] t.input_channel_in_bus(c, b) && b < i + 1 implies dirs@[c]
                == t.spec_buses()[b].dir by {
                t.lemma_channels_below_bound(b);
                if b < i {
                    t.lemma_channels_below_mono(b + 1, i as int);
                    assert(dirs@[c] == prefix[c]);
                }
            }
        }
        i = i + 1;
    }
    (dirs, ranges)
}

/// Per bus its range of flattened output channels.
fn build_output_ranges(t: &Topology) -> (ranges: Vec<(usize, usize)>)
    requires
        t.wf(),
    ensures
        ranges@.len() == t.spec_bus_count(),
        forall|i: int|
            0 <= i < t.spec_bus_count() ==> (#[trigger] ranges@[i]).0
                == t.spec_output_channels_below(i) && ranges@[i].1 == t.spec_output_channels_below(
                i + 1,
            ),
{
    let count = t.bus_count();
    let mut ranges: Vec<(usize, usize)> = Vec::new();
    let mut cursor: usize = 0;
    let mut i: usize = 0;
    while i < count
        invariant
            t.wf(),
            count == t.spec_bus_count(),
            i <= count,
            cursor == t.spec_output_channels_below(i as int),
            ranges@.len() == i,
            forall|b: int|
                0 <= b < i ==> (#[trigger] ranges@[b]).0 == t.spec_output_channels_below(b)
                    && ranges@[b].1 == t.spec_output_channels_below(b + 1),
        decreases count - i,
    {
        proof {
            t.lemma_channels_below_bound(i as int);
        }
        let start = cursor;
        if t.bus_dir(i).is_output() {
            cursor = cursor + t.channel_count(i);
        }
        ranges.push((start, cursor));
        i = i + 1;
    }
    ranges
}

/// Whether the list holds the index.
fn contains_index(v: &Vec<usize>, x: usize) -> (r: bool)
    ensures
        r == v@.contains(x),
{
    let mut i: usize = 0;
    while i < v.len()
        invariant
            i <= v@.len(),
            forall|j: int| 0 <= j < i ==> v@[j] != x,
        decreases v@.len() - i,
    {
        if v[i] == x {
            return true;
        }
        i = i + 1;
    }
    false
}

/// The position of `x` in the list, if any.
fn find_position(v: &Vec<usize>, x: usize) -> (r: Option<usize>)
    ensures
        r matches Some(k) ==> k < v@.len() && v@[k as int] == x,
        r is None ==> !v@.contains(x),
{
    let mut i: usize = 0;
    while i < v.len()
        invariant
            i <= v@.len(),
            forall|j: int| 0 <= j < i ==> v@[j] != x,
        decreases v@.len() - i,
    {
        if v[i] == x {
            return Some(i);
        }
        i = i + 1;
    }
    None
}

/// A plain copy of a list of buffer indices.
fn copy_indices(v: &Vec<usize>) -> (r: Vec<usize>)
    ensures
        r@ == v@,
{
    let mut out: Vec<usize> = Vec::new();
    let mut i: usize = 0;
    while i < v.len()
        invariant
            i <= v@.len(),
            out@ == v@.subrange(0, i as int),
        decreases v@.len() - i,
    {
        out.push(v[i]);
        i = i + 1;
    }
    proof {
        assert(out@ =~= v@);
    }
    out
}


/// Why a block is rejected before any samples move. A rejected block leaves
/// the scratch storage untouched.
#[derive(Clone, Copy, PartialEq, Eq, Structural, Debug)]
pub enum RouteError {
    /// The host's bus or channel configuration does not match the active
    /// layout: the host violated what it negotiated.
    ShapeMismatch,
    /// The block is longer than the maximum declared at activation.
    BlockTooLong,
    /// The scratch storage was not sized for this topology.
    ScratchTooSmall,
}

/// How one input channel was routed: a channel of a pure input bus that
/// shares its buffer with an output channel reads from a scratch copy taken
/// before any output could be written; any other channel reads the host
/// buffer it arrived on, which for a pure input bus is then no output
/// buffer at all.
pub open spec fn routed_channel(
    t: &Topology,
    scratch: &ScratchStorage,
    block: &HostBlock,
    view: &BufferView,
    c: int,
    i: int,
) -> bool {
    let b = block.input_channels@[c];
    if t.spec_buses()[i].dir is In && block.output_channels@.contains(b) {
        &&& view.inputs@[c] is Scratch
        &&& ((view.inputs@[c]->Scratch_0) as int) < scratch.spec_slots()
        &&& forall|j: int|
            0 <= j < block.block_len ==> scratch.spec_at(
                (view.inputs@[c]->Scratch_0) as int,
                j,
            ) == block.buffers@[b as int]@[j]
    } else {
        view.inputs@[c] == ChannelSource::Host(b)
    }
}

/// Everything a successful routing promises about the view it hands back.
pub open spec fn routed(
    t: &Topology,
    scratch: &ScratchStorage,
    block: &HostBlock,
    view: &BufferView,
) -> bool {
    &&& view.block_len == block.block_len
    &&& view.sources_valid(scratch, block)
    &&& view.inputs@.len() == block.input_channels@.len()
    &&& view.outputs@ == block.output_channels@
    &&& view.input_ranges@.len() == t.spec_bus_count()
    &&& view.output_ranges@.len() == t.spec_bus_count()
    &&& forall|i: int|
        0 <= i < t.spec_bus_count() ==> (#[trigger] view.input_ranges@[i]).0
            == t.spec_input_channels_below(i) && view.input_ranges@[i].1
            == t.spec_input_channels_below(i + 1)
    &&& forall|i: int|
        0 <= i < t.spec_bus_count() ==> (#[trigger] view.output_ranges@[i]).0
            == t.spec_output_channels_below(i) && view.output_ranges@[i].1
            == t.spec_output_channels_below(i + 1)
    &&& forall|c: int, i: int|
        #[trigger] t.input_channel_in_bus(c, i) && 0 <= c < block.input_channels@.len()
            ==> routed_channel(t, scratch, block, view, c, i)
}

/// How one processed channel stands in the routing loop's own terms: routed
/// to the copy slot holding its buffer, or passed through.
spec fn routed_flat(
    dirs: Seq<BusDir>,
    block: &HostBlock,
    inputs: Seq<ChannelSource>,
    assigned: Seq<usize>,
    c: int,
) -> bool {
    let b = block.input_channels@[c];
    if dirs[c] is In && block.output_channels@.contains(b) {
        &&& inputs[c] is Scratch
        &&& ((inputs[c]->Scratch_0) as int) < assigned.len()
        &&& assigned[(inputs[c]->Scratch_0) as int] == b
    } else {
        inputs[c] == ChannelSource::Host(b)
    }
}

/// Resolves one block's host buffers against the active layout.
///
/// The checks come first, each rejecting the whole block: an over-long
/// block, scratch storage not sized for the layout, and any mismatch between
/// the host's bus or channel counts and the negotiated layout. Then every
/// input channel of a pure input bus whose buffer doubles as an output
/// buffer is copied into its own scratch slot — one bounded copy per
/// distinct aliased buffer, which is why scratch sized to the smaller of the
/// two channel totals always suffices — and the view hands those channels
/// their copies. When nothing aliases, nothing is copied and the scratch
/// contents stay exactly as they were.
pub fn route(t: &Topology, scratch: &mut ScratchStorage, block: &HostBlock) -> (r: Result<
    BufferView,
    RouteError,
>)
    requires
        t.wf(),
        block.wf(),
        old(scratch).wf(),
    ensures
        final(scratch).wf(),
        final(scratch).spec_max_block_len() == old(scratch).spec_max_block_len(),
        final(scratch).spec_slots() == old(scratch).spec_slots(),
        r is Err ==> final(scratch).spec_data() == old(scratch).spec_data(),
        r == Err::<BufferView, RouteError>(RouteError::BlockTooLong) <==> block.block_len > old(
            scratch,
        ).spec_max_block_len(),
        r == Err::<BufferView, RouteError>(RouteError::ScratchTooSmall) <==> (block.block_len
            <= old(scratch).spec_max_block_len() && (old(scratch).spec_slots() as int) < spec_min(
            t.spec_input_channel_total(),
            t.spec_output_channel_total(),
        )),
        r == Err::<BufferView, RouteError>(RouteError::ShapeMismatch) <==> (block.block_len <= old(
            scratch,
        ).spec_max_block_len() && (old(scratch).spec_slots() as int) >= spec_min(
            t.spec_input_channel_total(),
            t.spec_output_channel_total(),
        ) && !shape_ok(t, block)),
        r is Ok <==> (block.block_len <= old(scratch).spec_max_block_len() && (old(
            scratch,
        ).spec_slots() as int) >= spec_min(
            t.spec_input_channel_total(),
            t.spec_output_channel_total(),
        ) && shape_ok(t, block)),
        r matches Ok(view) ==> routed(t, final(scratch), block, &view),
        r is Ok && !has_aliased_input(t, block) ==> final(scratch).spec_data() == old(
            scratch,
        ).spec_data(),
{
    let max_len = scratch.max_block_len();
    if block.block_len > max_len {
        return Err(RouteError::BlockTooLong);
    }
    let in_total = t.input_channel_total();
    let out_total = t.output_channel_total();
    let needed = if in_total < out_total {
        in_total
    } else {
        out_total
    };
    if scratch.slots() < needed {
        return Err(RouteError::ScratchTooSmall);
    }
    let shape_in = check_input_shape(t, block);
    let shape_out = check_output_shape(t, block);
    if !shape_in || !shape_out || block.input_channels.len() != in_total
        || block.output_channels.len() != out_total {
        return Err(RouteError::ShapeMismatch);
    }
    let (dirs, input_ranges) = build_input_plan(t);
    let output_ranges = build_output_ranges(t);
    let outputs = copy_indices(&block.output_channels);
    let total = block.input_channels.len();
    let mut inputs: Vec<ChannelSource> = Vec::new();
    let mut assigned: Vec<usize> = Vec::new();
    let mut c: usize = 0;
    while c < total
        invariant
            t.wf(),
            block.wf(),
            c <= total,
            total == block.input_channels@.len(),
            total == t.spec_input_channel_total(),
            out_total == t.spec_output_channel_total(),
            out_total == block.output_channels@.len(),
            needed == spec_min(total as int, out_total as int),
            scratch.wf(),
            scratch.spec_slots() == old(scratch).spec_slots(),
            scratch.spec_max_block_len() == old(scratch).spec_max_block_len(),
            needed <= scratch.spec_slots(),
            block.block_len <= scratch.spec_max_block_len(),
            inputs@.len() == c,
            dirs@.len() == total,
            forall|c2: int, i: int|
                #[trigger] t.input_channel_in_bus(c2, i) ==> dirs@[c2] == t.spec_buses()[i].dir,
            assigned@.len() <= c,
            assigned@.len() <= needed,
            forall|k: int|
                0 <= k < assigned@.len() ==> ((#[trigger] assigned@[k]) as int)
                    < block.buffers@.len() && block.output_channels@.contains(assigned@[k]),
            assigned@.no_duplicates(),
            forall|k: int, j: int|
                0 <= k < assigned@.len() && 0 <= j < block.block_len ==> #[trigger] scratch.spec_at(
                    k,
                    j,
                ) == block.buffers@[assigned@[k] as int]@[j],
            assigned@.len() == 0 ==> scratch.spec_data() == old(scratch).spec_data(),
            assigned@.len() > 0 ==> exists|c2: int|
                0 <= c2 < c && dirs@[c2] is In && block.output_channels@.contains(
                    #[trigger] block.input_channels@[c2],
                ),
            forall|c2: int| 0 <= c2 < c ==> routed_flat(dirs@, block, inputs@, assigned@, c2),
        decreases total - c,
    {
        let b = block.input_channels[c];
        let ghost inputs_pre = inputs@;
        let ghost assigned_pre = assigned@;
        let is_pure_in = match dirs[c] {
            BusDir::In => true,
            _ => false,
        };
        if is_pure_in && contains_index(&block.output_channels, b) {
            let slot = match find_position(&assigned, b) {
                Some(k) => k,
                None => {
                    let k = assigned.len();
                    proof {
                        let bufs = assigned@.push(b);
                        assert(bufs.no_duplicates());
                        assert forall|p: int| 0 <= p < bufs.len() implies
                            block.output_channels@.contains(#[trigger] bufs[p]) by {}
                        lemma_distinct_values_bounded(bufs, block.output_channels@);
                        assert(k + 1 <= out_total);
                        assert(k + 1 <= total);
                        assert(k < scratch.spec_slots());
                    }
                    let ghost pre_scratch = *scratch;
                    scratch.load(k, &block.buffers[b]);
                    proof {
                        let m = scratch.spec_max_block_len() as int;
                        lemma_slot_region(k as int, scratch.spec_slots() as int, m);
                        assert forall|k2: int, j: int|
                            0 <= k2 < assigned@.len() && 0 <= j < block.block_len implies
                            #[trigger] scratch.spec_at(k2, j) == block.buffers@[assigned@[k2] as int]@[j] by {
                            lemma_slot_region(k2, k as int, m);
                            assert(0 <= k2 * m + j < k * m);
                            assert(scratch.spec_data()[k2 * m + j] == pre_scratch.spec_data()[k2 * m
                                + j]);
                            assert(pre_scratch.spec_at(k2, j) == block.buffers@[assigned@[k2] as int]@[j]);
                        }
                    }
                    assigned.push(b);
                    k
                },
            };
            inputs.push(ChannelSource::Scratch(slot));
            proof {
                assert(assigned@[slot as int] == b);
                assert(routed_flat(dirs@, block, inputs@, assigned@, c as int));
            }
        } else {
            inputs.push(ChannelSource::Host(b));
            proof {
                assert(routed_flat(dirs@, block, inputs@, assigned@, c as int));
            }
        }
        proof {
            assert forall|c2: int| 0 <= c2 < c implies routed_flat(
                dirs@,
                block,
                inputs@,
                assigned@,
                c2,
            ) by {
                assert(routed_flat(dirs@, block, inputs_pre, assigned_pre, c2));
                assert(inputs@[c2] == inputs_pre[c2]);
                if inputs_pre[c2] is Scratch {
                    let sl = (inputs_pre[c2]->Scratch_0) as int;
                    if 0 <= sl < assigned_pre.len() {
                        assert(assigned@[sl] == assigned_pre[sl]);
                    }
                }
            }
        }
        c = c + 1;
    }
    let view = BufferView {
        block_len: block.block_len,
        inputs,
        outputs,
        input_ranges,
        output_ranges,
    };
    proof {
        assert forall|c2: int, i: int|
            #[trigger] t.input_channel_in_bus(c2, i) && 0 <= c2 < block.input_channels@.len()
                implies routed_channel(t, scratch, block, &view, c2, i) by {
            assert(routed_flat(dirs@, block, view.inputs@, assigned@, c2));
            assert(dirs@[c2] == t.spec_buses()[i].dir);
        }
        assert forall|c2: int| 0 <= c2 < view.inputs@.len() implies match #[trigger] view.inputs@[c2] {
            ChannelSource::Host(b) => b < block.buffers@.len(),
            ChannelSource::Scratch(s) => s < scratch.spec_slots(),
        } by {
            assert(routed_flat(dirs@, block, view.inputs@, assigned@, c2));
        }
        if !has_aliased_input(t, block) {
            if assigned@.len() > 0 {
                let c2 = choose|c2: int|
                    0 <= c2 < total && dirs@[c2] is In && block.output_channels@.contains(
                        #[trigger] block.input_channels@[c2],
                    );
                t.lemma_input_channel_has_bus(c2, t.spec_bus_count() as int);
                let i = choose|i: int| #[trigger] t.input_channel_in_bus(c2, i);
                assert(t.spec_buses()[i].dir is In);
                assert(has_aliased_input(t, block));
            }
        }
    }
    Ok(view)
}

/// What a routed pure-input channel yields never moves when output buffers
/// are written. `after` is the block as any sequence of writes confined to
/// the view's output buffers leaves it; the channel's samples come either
/// from a scratch copy or from a host buffer no output channel names, so
/// they read the same in both states — the host's in-place aliasing is
/// invisible within the call.
pub proof fn lemma_pure_input_stable(
    t: &Topology,
    scratch: &ScratchStorage,
    view: &BufferView,
    before: &HostBlock,
    after: &HostBlock,
    c: int,
    i: int,
    j: int,
)
    requires
        t.wf(),
        routed(t, scratch, before, view),
        t.input_channel_in_bus(c, i),
        t.spec_buses()[i].dir is In,
        0 <= c < before.input_channels@.len(),
        before.buffers@.len() == after.buffers@.len(),
        forall|b: int|
            0 <= b < before.buffers@.len() && !view.outputs@.contains(b as usize)
                ==> before.buffers@[b] == after.buffers@[b],
    ensures
        view.spec_input_sample(scratch, before, c, j) == view.spec_input_sample(scratch, after, c, j),
{
    assert(routed_channel(t, scratch, before, view, c, i));
}

} // verus!
