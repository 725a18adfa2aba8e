//! What the platform reports to the engine: plain values, read by the caller
//! and handed to the refresh that they are for.

use vstd::prelude::*;
use crate::process::{ProcessReport, ProcessReportView};
use crate::session::{CounterHandle, CounterKey, RawReading};

verus! {

/// Physical memory as the platform reports it, in bytes.
#[derive(Clone, Copy, Debug, PartialEq, Eq, Structural)]
pub struct MemoryStatus {
    pub total_phys: u64,
    pub avail_phys: u64,
}

/// One core as the platform describes it.
#[derive(Debug)]
pub struct CoreInfo {
    pub name: String,
    pub frequency: u64,
}

/// `CoreInfo` as plain values.
pub struct CoreInfoView {
    pub name: Seq<char>,
    pub frequency: u64,
}

impl View for CoreInfo {
    type V = CoreInfoView;

    open spec fn view(&self) -> CoreInfoView {
        CoreInfoView { name: self.name@, frequency: self.frequency }
    }
}

/// The outcome of asking the platform to subscribe the counter for `key`:
/// its handle, or nothing where the platform refused.
#[derive(Clone, Copy, Debug, PartialEq, Eq, Structural)]
pub struct Subscription {
    pub key: CounterKey,
    pub handle: Option<CounterHandle>,
}

/// What the platform reported while the engine was set up.
#[derive(Debug)]
pub struct Startup {
    pub vendor_id: String,
    pub brand: String,
    /// The cores, in the order of their positions.
    pub cores: Vec<CoreInfo>,
    /// Whether the counter subsystem could be opened.
    pub counters_available: bool,
    /// The outcomes of the subscriptions that were attempted.
    pub subscriptions: Vec<Subscription>,
    /// Seconds since the epoch; absent where the clock could not be read.
    pub wall_clock: Option<u64>,
    /// Milliseconds since boot.
    pub tick_count: u64,
}

/// `Startup` as plain values.
pub struct StartupView {
    pub vendor_id: Seq<char>,
    pub brand: Seq<char>,
    pub cores: Seq<CoreInfoView>,
    pub counters_available: bool,
    pub subscriptions: Seq<Subscription>,
    pub wall_clock: Option<u64>,
    pub tick_count: u64,
}

impl View for Startup {
    type V = StartupView;

    open spec fn view(&self) -> StartupView {
        StartupView {
            vendor_id: self.vendor_id@,
            brand: self.brand@,
            cores: self.cores@.map_values(|c: CoreInfo| c@),
            counters_available: self.counters_available,
            subscriptions: self.subscriptions@,
            wall_clock: self.wall_clock,
            tick_count: self.tick_count,
        }
    }
}

/// One round of readings, all taken at the instant `now`.
#[derive(Debug)]
pub struct Readings {
    pub memory: MemoryStatus,
    pub counters: Vec<RawReading>,
    pub processes: Vec<ProcessReport>,
    pub now: u64,
}

/// `Readings` as plain values.
pub struct ReadingsView {
    pub memory: MemoryStatus,
    pub counters: Seq<RawReading>,
    pub processes: Seq<ProcessReportView>,
    pub now: u64,
}

impl View for Readings {
    type V = ReadingsView;

    open spec fn view(&self) -> ReadingsView {
        ReadingsView {
            memory: self.memory,
            counters: self.counters@,
            processes: self.processes@.map_values(|r: ProcessReport| r@),
            now: self.now,
        }
    }
}

} // verus!
