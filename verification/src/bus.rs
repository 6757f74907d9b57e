//! Static description of the plugin's logical audio buses and the set of
//! legal channel layouts, with resolution of a host-proposed layout against
//! that set.
//!
//! A layout assigns one channel format to every bus; membership in the legal
//! set is exact equality of the whole combination, never per bus. Resolution
//! either installs the candidate as the active layout or leaves the previous
//! one untouched. A bus the host disables keeps its index but contributes no
//! channels.

use vstd::prelude::*;

verus! {

/// One bus's channel format under a layout.
#[derive(Clone, Copy, PartialEq, Eq, Structural, Debug)]
pub enum BusLayout {
    Mono,
    Stereo,
}

impl BusLayout {
    /// The number of channels this format carries.
    pub open spec fn spec_channels(self) -> usize {
        match self {
            BusLayout::Mono => 1,
            BusLayout::Stereo => 2,
        }
    }

    pub fn channels(&self) -> (n: usize)
        ensures
            n == self.spec_channels(),
    {
        match self {
            BusLayout::Mono => 1,
            BusLayout::Stereo => 2,
        }
    }
}

/// The direction of a bus. An in-place capable bus is both at once and hands
/// the plugin a single read-write buffer per channel.
#[derive(Clone, Copy, PartialEq, Eq, Structural, Debug)]
pub enum BusDir {
    In,
    Out,
    InOut,
}

impl BusDir {
    /// Whether the bus contributes input channels.
    pub open spec fn spec_is_input(self) -> bool {
        self is In || self is InOut
    }

    /// Whether the bus contributes output channels.
    pub open spec fn spec_is_output(self) -> bool {
        self is Out || self is InOut
    }

    pub fn is_input(&self) -> (r: bool)
        ensures
            r == self.spec_is_input(),
    {
        match self {
            BusDir::In | BusDir::InOut => true,
            BusDir::Out => false,
        }
    }

    pub fn is_output(&self) -> (r: bool)
        ensures
            r == self.spec_is_output(),
    {
        match self {
            BusDir::Out | BusDir::InOut => true,
            BusDir::In => false,
        }
    }
}

/// Static descriptor of one bus: its direction and a human-readable name.
pub struct BusInfo {
    pub name: String,
    pub dir: BusDir,
}

/// One legal channel-format assignment across all buses, indexed like the
/// bus list.
#[derive(Clone)]
pub struct Layout {
    pub formats: Vec<BusLayout>,
}

/// Why a bus declaration is rejected at construction.
#[derive(Clone, Copy, PartialEq, Eq, Structural, Debug)]
pub enum TopologyError {
    /// The layout set is empty, so no layout could ever become active.
    NoLayouts,
    /// Some declared layout does not assign a format to every bus.
    LayoutSizeMismatch,
    /// So many buses that channel totals could overflow the machine word.
    TooManyBuses,
}

/// The bus list, the legal layout set, the active layout, and each bus's
/// host-controlled enable flag.
pub struct Topology {
    buses: Vec<BusInfo>,
    layouts: Vec<Layout>,
    active: usize,
    enabled: Vec<bool>,
}

/// Compares two layouts as whole combinations.
pub fn layouts_equal(a: &Layout, b: &Layout) -> (r: bool)
    ensures
        r == (a.formats@ == b.formats@),
{
    if a.formats.len() != b.formats.len() {
        proof {
            assert(a.formats@.len() != b.formats@.len());
        }
        return false;
    }
    let n = a.formats.len();
    let mut i: usize = 0;
    while i < n
        invariant
            i <= n,
            a.formats@.len() == n,
            b.formats@.len() == n,
            forall|j: int| 0 <= j < i ==> a.formats@[j] == b.formats@[j],
        decreases n - i,
    {
        if a.formats[i] != b.formats[i] {
            return false;
        }
        i = i + 1;
    }
    proof {
        assert(a.formats@ =~= b.formats@);
    }
    true
}

impl Topology {
    pub closed spec fn spec_buses(&self) -> Seq<BusInfo> {
        self.buses@
    }

    pub open spec fn spec_bus_count(&self) -> nat {
        self.spec_buses().len()
    }

    pub closed spec fn spec_layouts(&self) -> Seq<Layout> {
        self.layouts@
    }

    pub closed spec fn spec_active_index(&self) -> int {
        self.active as int
    }

    /// The formats of the currently active layout.
    pub open spec fn spec_active(&self) -> Seq<BusLayout> {
        self.spec_layouts()[self.spec_active_index()].formats@
    }

    pub closed spec fn spec_enabled(&self, bus: int) -> bool {
        self.enabled@[bus]
    }

    /// Whether the layout set declares this exact combination legal.
    pub open spec fn spec_in_set(&self, formats: Seq<BusLayout>) -> bool {
        exists|k: int|
            0 <= k < self.spec_layouts().len() && (#[trigger] self.spec_layouts()[k]).formats@
                == formats
    }

    /// The channels a bus contributes under the active layout: none while the
    /// host has it disabled.
    pub open spec fn spec_channel_count(&self, bus: int) -> usize {
        if self.spec_enabled(bus) {
            self.spec_active()[bus].spec_channels()
        } else {
            0
        }
    }

    pub open spec fn wf(&self) -> bool {
        &&& self.spec_layouts().len() >= 1
        &&& 0 <= self.spec_active_index() < self.spec_layouts().len()
        &&& forall|k: int|
            0 <= k < self.spec_layouts().len() ==> (#[trigger] self.spec_layouts()[k]).formats@.len()
                == self.spec_bus_count()
        &&& self.spec_enabled_len() == self.spec_bus_count()
        &&& 2 * self.spec_bus_count() <= usize::MAX
    }

    pub closed spec fn spec_enabled_len(&self) -> nat {
        self.enabled@.len()
    }

    /// Builds a topology from the plugin's declaration. The first declared
    /// layout becomes active and every bus starts enabled. Fails exactly when
    /// the layout set is empty or some layout does not cover the bus list.
    pub fn new(buses: Vec<BusInfo>, layouts: Vec<Layout>) -> (r: Result<Topology, TopologyError>)
        ensures
            r is Ok ==> {
                let t = r->Ok_0;
                &&& t.wf()
                &&& t.spec_buses() == buses@
                &&& t.spec_layouts() == layouts@
                &&& t.spec_active_index() == 0
                &&& forall|b: int| 0 <= b < t.spec_bus_count() ==> t.spec_enabled(b)
            },
            r == Err::<Topology, TopologyError>(TopologyError::TooManyBuses) <==> 2 * buses@.len()
                > usize::MAX,
            r == Err::<Topology, TopologyError>(TopologyError::NoLayouts) <==> (2 * buses@.len()
                <= usize::MAX && layouts@.len() == 0),
            r == Err::<Topology, TopologyError>(TopologyError::LayoutSizeMismatch) <==> (2
                * buses@.len() <= usize::MAX && layouts@.len() > 0 && exists|k: int|
                0 <= k < layouts@.len() && (#[trigger] layouts@[k]).formats@.len() != buses@.len()),
    {
        if buses.len() > usize::MAX / 2 {
            return Err(TopologyError::TooManyBuses);
        }
        proof {
            assert(2 * buses@.len() <= usize::MAX);
        }
        if layouts.len() == 0 {
            return Err(TopologyError::NoLayouts);
        }
        let mut k: usize = 0;
        while k < layouts.len()
            invariant
                k <= layouts@.len(),
                2 * buses@.len() <= usize::MAX,
                layouts@.len() > 0,
                forall|j: int| 0 <= j < k ==> (#[trigger] layouts@[j]).formats@.len() == buses@.len(),
            decreases layouts@.len() - k,
        {
            if layouts[k].formats.len() != buses.len() {
                return Err(TopologyError::LayoutSizeMismatch);
            }
            k = k + 1;
        }
        let bus_count = buses.len();
        let mut enabled: Vec<bool> = Vec::new();
        let mut i: usize = 0;
        while i < bus_count
            invariant
                i <= bus_count,
                enabled@.len() == i,
                forall|j: int| 0 <= j < i ==> enabled@[j],
            decreases bus_count - i,
        {
            enabled.push(true);
            i = i + 1;
        }
        Ok(Topology { buses, layouts, active: 0, enabled })
    }

    pub fn bus_count(&self) -> (n: usize)
        ensures
            n == self.spec_bus_count(),
    {
        self.buses.len()
    }

    /// Tests the candidate for membership in the layout set; on success it
    /// becomes the active layout, on failure the previous one stays
    /// authoritative in every respect.
    pub fn resolve(&mut self, candidate: &Layout) -> (ok: bool)
        requires
            old(self).wf(),
        ensures
            final(self).wf(),
            ok == old(self).spec_in_set(candidate.formats@),
            ok ==> final(self).spec_active() == candidate.formats@,
            !ok ==> *final(self) == *old(self),
            final(self).spec_buses() == old(self).spec_buses(),
            final(self).spec_layouts() == old(self).spec_layouts(),
            forall|b: int|
                0 <= b < final(self).spec_bus_count() ==> final(self).spec_enabled(b) == old(
                    self,
                ).spec_enabled(b),
    {
        let n = self.layouts.len();
        let mut k: usize = 0;
        while k < n
            invariant
                k <= n,
                self == old(self),
                self.wf(),
                n == self.spec_layouts().len(),
                forall|j: int| 0 <= j < k ==> (#[trigger] self.spec_layouts()[j]).formats@
                    != candidate.formats@,
            decreases n - k,
        {
            if layouts_equal(&self.layouts[k], candidate) {
                self.active = k;
                return true;
            }
            k = k + 1;
        }
        false
    }

    /// The channel count of `bus` under the active layout. An index past the
    /// bus list is a caller contract violation.
    pub fn channel_count(&self, bus: usize) -> (n: usize)
        requires
            self.wf(),
            bus < self.spec_bus_count(),
        ensures
            n == self.spec_channel_count(bus as int),
    {
        if self.enabled[bus] {
            self.layouts[self.active].formats[bus].channels()
        } else {
            0
        }
    }

    /// The direction of `bus`.
    pub fn bus_dir(&self, bus: usize) -> (d: BusDir)
        requires
            bus < self.spec_bus_count(),
        ensures
            d == self.spec_buses()[bus as int].dir,
    {
        self.buses[bus].dir
    }

    /// The declared human-readable name of `bus`, as a host's bus-info query
    /// reports it.
    pub fn bus_name(&self, bus: usize) -> (name: &str)
        requires
            bus < self.spec_bus_count(),
        ensures
            name@ == self.spec_buses()[bus as int].name@,
    {
        self.buses[bus].name.as_str()
    }

    /// Enables or disables a bus; a disabled bus keeps its index but
    /// contributes no channels.
    pub fn set_bus_enabled(&mut self, bus: usize, on: bool)
        requires
            old(self).wf(),
            bus < old(self).spec_bus_count(),
        ensures
            final(self).wf(),
            final(self).spec_buses() == old(self).spec_buses(),
            final(self).spec_layouts() == old(self).spec_layouts(),
            final(self).spec_active_index() == old(self).spec_active_index(),
            final(self).spec_enabled(bus as int) == on,
            forall|b: int|
                0 <= b < final(self).spec_bus_count() && b != bus ==> final(self).spec_enabled(b)
                    == old(self).spec_enabled(b),
    {
        self.enabled.set(bus, on);
    }

    /// The input channels contributed by buses before `n`, under the active
    /// layout.
    pub open spec fn spec_input_channels_below(&self, n: int) -> int
        decreases n,
    {
        if n <= 0 {
            0
        } else {
            self.spec_input_channels_below(n - 1) + if self.spec_buses()[n
                - 1].dir.spec_is_input() {
                self.spec_channel_count(n - 1) as int
            } else {
                0
            }
        }
    }

    /// The output channels contributed by buses before `n`.
    pub open spec fn spec_output_channels_below(&self, n: int) -> int
        decreases n,
    {
        if n <= 0 {
            0
        } else {
            self.spec_output_channels_below(n - 1) + if self.spec_buses()[n
                - 1].dir.spec_is_output() {
                self.spec_channel_count(n - 1) as int
            } else {
                0
            }
        }
    }

    /// Total input channels under the active layout.
    pub open spec fn spec_input_channel_total(&self) -> int {
        self.spec_input_channels_below(self.spec_bus_count() as int)
    }

    /// Total output channels under the active layout.
    pub open spec fn spec_output_channel_total(&self) -> int {
        self.spec_output_channels_below(self.spec_bus_count() as int)
    }

    pub proof fn lemma_channels_below_bound(&self, n: int)
        requires
            self.wf(),
            0 <= n <= self.spec_bus_count(),
        ensures
            0 <= self.spec_input_channels_below(n) <= 2 * n,
            0 <= self.spec_output_channels_below(n) <= 2 * n,
        decreases n,
    {
        if n > 0 {
            self.lemma_channels_below_bound(n - 1);
        }
    }

    /// Channel prefix counts never decrease along the bus list.
    pub proof fn lemma_channels_below_mono(&self, a: int, b: int)
        requires
            self.wf(),
            0 <= a <= b <= self.spec_bus_count(),
        ensures
            self.spec_input_channels_below(a) <= self.spec_input_channels_below(b),
            self.spec_output_channels_below(a) <= self.spec_output_channels_below(b),
        decreases b - a,
    {
        if a < b {
            self.lemma_channels_below_mono(a, b - 1);
        }
    }

    /// Whether flattened input channel `c` belongs to bus `i` under the
    /// active layout.
    pub open spec fn input_channel_in_bus(&self, c: int, i: int) -> bool {
        &&& 0 <= i < self.spec_bus_count()
        &&& self.spec_input_channels_below(i) <= c < self.spec_input_channels_below(i + 1)
    }

    /// Every flattened input channel belongs to some bus.
    pub proof fn lemma_input_channel_has_bus(&self, c: int, n: int)
        requires
            self.wf(),
            0 <= n <= self.spec_bus_count(),
            0 <= c < self.spec_input_channels_below(n),
        ensures
            exists|i: int| #[trigger] self.input_channel_in_bus(c, i),
        decreases n,
    {
        if n > 0 {
            if c < self.spec_input_channels_below(n - 1) {
                self.lemma_input_channel_has_bus(c, n - 1);
            } else {
                assert(self.input_channel_in_bus(c, n - 1));
            }
        }
    }

    pub fn input_channel_total(&self) -> (n: usize)
        requires
            self.wf(),
        ensures
            n == self.spec_input_channel_total(),
    {
        let count = self.buses.len();
        let mut total: usize = 0;
        let mut i: usize = 0;
        while i < count
            invariant
                i <= count,
                self.wf(),
                count == self.spec_bus_count(),
                total == self.spec_input_channels_below(i as int),
                total <= 2 * i,
            decreases count - i,
        {
            if self.buses[i].dir.is_input() {
                total = total + self.channel_count(i);
            }
            i = i + 1;
        }
        total
    }

    pub fn output_channel_total(&self) -> (n: usize)
        requires
            self.wf(),
        ensures
            n == self.spec_output_channel_total(),
    {
        let count = self.buses.len();
        let mut total: usize = 0;
        let mut i: usize = 0;
        while i < count
            invariant
                i <= count,
                self.wf(),
                count == self.spec_bus_count(),
                total == self.spec_output_channels_below(i as int),
                total <= 2 * i,
            decreases count - i,
        {
            if self.buses[i].dir.is_output() {
                total = total + self.channel_count(i);
            }
            i = i + 1;
        }
        total
    }
}

} // verus!
