//! The catalogue of countable hardware and software conditions.
//!
//! An `Event` identifies one condition the kernel can tally. Events are
//! immutable values, totally ordered by `id_spec`, and serve as the keys
//! of a requested set and of the failure map `create` returns.

use vstd::prelude::*;

verus! {

/// One countable hardware or software condition.
#[derive(Clone, Copy, Debug, PartialEq, Eq, Structural)]
pub enum Event {
    /// Total CPU cycles.
    CpuCycles,
    /// Retired instructions.
    Instructions,
    /// Cache accesses.
    CacheReferences,
    /// Cache misses.
    CacheMisses,
    /// Retired branch instructions.
    BranchInstructions,
    /// Mispredicted branch instructions.
    BranchMisses,
    /// Bus cycles.
    BusCycles,
    /// Stalled cycles during issue.
    StalledCyclesFrontend,
    /// Stalled cycles during retirement.
    StalledCyclesBackend,
    /// Total CPU cycles, not affected by frequency scaling.
    RefCpuCycles,
    /// The CPU clock, a high-resolution per-CPU timer.
    CpuClock,
    /// A clock count specific to the task that is running.
    TaskClock,
    /// Page faults, major and minor.
    PageFaults,
    /// Context switches.
    ContextSwitches,
    /// Migrations of the process to another CPU.
    CpuMigrations,
    /// Minor page faults (no disk access needed).
    PageFaultsMin,
    /// Major page faults (disk access needed).
    PageFaultsMaj,
    /// Alignment faults.
    AlignmentFaults,
    /// Emulation faults (unimplemented instructions trapped and emulated).
    EmulationFaults,
}

impl Event {
    /// The kind selector the kernel's open primitive expects:
    /// 0 for a hardware event, 1 for a software event.
    pub open spec fn attr_type_spec(self) -> u32 {
        match self {
            Event::CpuCycles => 0u32,
            Event::Instructions => 0u32,
            Event::CacheReferences => 0u32,
            Event::CacheMisses => 0u32,
            Event::BranchInstructions => 0u32,
            Event::BranchMisses => 0u32,
            Event::BusCycles => 0u32,
            Event::StalledCyclesFrontend => 0u32,
            Event::StalledCyclesBackend => 0u32,
            Event::RefCpuCycles => 0u32,
            _ => 1u32,
        }
    }

    /// The event selector within its kind, as the kernel numbers them.
    pub open spec fn attr_config_spec(self) -> u64 {
        match self {
            Event::CpuCycles => 0u64,
            Event::Instructions => 1u64,
            Event::CacheReferences => 2u64,
            Event::CacheMisses => 3u64,
            Event::BranchInstructions => 4u64,
            Event::BranchMisses => 5u64,
            Event::BusCycles => 6u64,
            Event::StalledCyclesFrontend => 7u64,
            Event::StalledCyclesBackend => 8u64,
            Event::RefCpuCycles => 9u64,
            Event::CpuClock => 0u64,
            Event::TaskClock => 1u64,
            Event::PageFaults => 2u64,
            Event::ContextSwitches => 3u64,
            Event::CpuMigrations => 4u64,
            Event::PageFaultsMin => 5u64,
            Event::PageFaultsMaj => 6u64,
            Event::AlignmentFaults => 7u64,
            Event::EmulationFaults => 8u64,
        }
    }

    /// A key that orders the catalogue totally: kind first, then the
    /// kernel's event number within the kind.
    pub open spec fn id_spec(self) -> u64 {
        (self.attr_type_spec() * 10 + self.attr_config_spec()) as u64
    }

    pub fn attr_type(&self) -> (r: u32)
        ensures
            r == self.attr_type_spec(),
    {
        match *self {
            Event::CpuCycles => 0,
            Event::Instructions => 0,
            Event::CacheReferences => 0,
            Event::CacheMisses => 0,
            Event::BranchInstructions => 0,
            Event::BranchMisses => 0,
            Event::BusCycles => 0,
            Event::StalledCyclesFrontend => 0,
            Event::StalledCyclesBackend => 0,
            Event::RefCpuCycles => 0,
            _ => 1,
        }
    }

    pub fn attr_config(&self) -> (r: u64)
        ensures
            r == self.attr_config_spec(),
    {
        match *self {
            Event::CpuCycles => 0,
            Event::Instructions => 1,
            Event::CacheReferences => 2,
            Event::CacheMisses => 3,
            Event::BranchInstructions => 4,
            Event::BranchMisses => 5,
            Event::BusCycles => 6,
            Event::StalledCyclesFrontend => 7,
            Event::StalledCyclesBackend => 8,
            Event::RefCpuCycles => 9,
            Event::CpuClock => 0,
            Event::TaskClock => 1,
            Event::PageFaults => 2,
            Event::ContextSwitches => 3,
            Event::CpuMigrations => 4,
            Event::PageFaultsMin => 5,
            Event::PageFaultsMaj => 6,
            Event::AlignmentFaults => 7,
            Event::EmulationFaults => 8,
        }
    }

    pub fn id(&self) -> (r: u64)
        ensures
            r == self.id_spec(),
    {
        self.attr_type() as u64 * 10 + self.attr_config()
    }

    /// Every catalogued event, in `id_spec` order.
    pub open spec fn all_events_spec() -> Seq<Event> {
        seq![
            Event::CpuCycles,
            Event::Instructions,
            Event::CacheReferences,
            Event::CacheMisses,
            Event::BranchInstructions,
            Event::BranchMisses,
            Event::BusCycles,
            Event::StalledCyclesFrontend,
            Event::StalledCyclesBackend,
            Event::RefCpuCycles,
            Event::CpuClock,
            Event::TaskClock,
            Event::PageFaults,
            Event::ContextSwitches,
            Event::CpuMigrations,
            Event::PageFaultsMin,
            Event::PageFaultsMaj,
            Event::AlignmentFaults,
            Event::EmulationFaults,
        ]
    }

    /// Every catalogued event, in `id_spec` order.
    pub fn all_events() -> (r: Vec<Event>)
        ensures
            r@ == Event::all_events_spec(),
    {
        let mut v: Vec<Event> = Vec::new();
        v.push(Event::CpuCycles);
        v.push(Event::Instructions);
        v.push(Event::CacheReferences);
        v.push(Event::CacheMisses);
        v.push(Event::BranchInstructions);
        v.push(Event::BranchMisses);
        v.push(Event::BusCycles);
        v.push(Event::StalledCyclesFrontend);
        v.push(Event::StalledCyclesBackend);
        v.push(Event::RefCpuCycles);
        v.push(Event::CpuClock);
        v.push(Event::TaskClock);
        v.push(Event::PageFaults);
        v.push(Event::ContextSwitches);
        v.push(Event::CpuMigrations);
        v.push(Event::PageFaultsMin);
        v.push(Event::PageFaultsMaj);
        v.push(Event::AlignmentFaults);
        v.push(Event::EmulationFaults);
        proof {
            assert(v@ =~= Event::all_events_spec());
        }
        v
    }
}

/// Two events with the same ordering key are the same event.
pub proof fn lemma_id_injective(a: Event, b: Event)
    requires
        a.id_spec() == b.id_spec(),
    ensures
        a == b,
{
}

/// In the catalogue, the ordering key of each event is its position.
pub proof fn lemma_all_events_ids()
    ensures
        forall|i: int|
            0 <= i < Event::all_events_spec().len() ==> #[trigger] Event::all_events_spec()[i].id_spec() == i,
{
    assert forall|i: int|
        0 <= i < Event::all_events_spec().len() implies #[trigger] Event::all_events_spec()[i].id_spec()
        == i by {
        assert(Event::all_events_spec().len() == 19);
    }
}

} // verus!
