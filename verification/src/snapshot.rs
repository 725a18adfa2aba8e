//! The snapshot as plain values, what each refresh makes of it, and what
//! holds of every snapshot.

use vstd::prelude::*;
use crate::catalog::{
    outcomes_of, plan_of, processor_category, processor_time_counter, translation_of,
};
use crate::platform::{MemoryStatus, ReadingsView, StartupView, Subscription};
use crate::process::{
    deciding_report, lemma_refreshed_process_in_range, shows_alive, Pid, ProcessReportView,
    ProcessSightingView, ProcessView,
};
use crate::processor::{lemma_sampled_processor_in_range, ProcessorView};
use crate::refresh_kind::RefreshKind;
use crate::session::{
    counter_of, covers, distinct_keys, has_key, lemma_position_of, lemma_resampled_distinct,
    lemma_resampled_keys, lemma_with_counter_distinct, reading_of, resampled, with_counter,
    Counter, CounterHandle, CounterKey, RawReading,
};

verus! {

/// Seconds since the epoch at which the machine booted: the wall clock less the
/// uptime. `wall_clock` is the time since the epoch in seconds, absent where
/// the clock could not be read, and `tick_count` the uptime in milliseconds.
/// Without a clock reading, or with one that is earlier than the uptime, the
/// boot time is unknown and given as zero.
pub open spec fn boot_time_of(wall_clock: Option<u64>, tick_count: u64) -> u64 {
    match wall_clock {
        Some(now) => if now >= tick_count / 1000 {
            (now - tick_count / 1000) as u64
        } else {
            0
        },
        None => 0,
    }
}

/// The name of the aggregate processor.
pub const TOTAL_CPU_NAME: &'static str = "Total CPU";

/// The name of the aggregate processor.
pub open spec fn total_cpu_name() -> Seq<char> {
    TOTAL_CPU_NAME@
}

/// Whether `key` names a processor of a machine with `cores` cores.
pub open spec fn placed(key: CounterKey, cores: int) -> bool {
    match key {
        CounterKey::Total => true,
        CounterKey::Core(position) => position < cores,
    }
}

/// The counters of the session after the subscription outcomes `requests`,
/// taken in order: each outcome whose key names a processor is recorded as
/// `with_counter` says, and the others are passed over.
pub open spec fn subscribed_counters(requests: Seq<Subscription>, cores: int) -> Seq<Counter>
    decreases requests.len(),
{
    if requests.len() == 0 {
        Seq::empty()
    } else {
        let earlier = subscribed_counters(requests.drop_last(), cores);
        if placed(requests.last().key, cores) {
            with_counter(earlier, requests.last().key, requests.last().handle)
        } else {
            earlier
        }
    }
}

/// The key of a processor: `key` if a counter is subscribed under it.
pub open spec fn key_if_subscribed(counters: Option<Seq<Counter>>, key: CounterKey) -> Option<
    CounterKey,
> {
    match counters {
        Some(subscribed) => if has_key(subscribed, key) {
            Some(key)
        } else {
            None
        },
        None => None,
    }
}

/// Whether the counter that feeds a processor, if it has one, is subscribed.
pub open spec fn fed(p: ProcessorView, counters: Option<Seq<Counter>>) -> bool {
    p.key matches Some(key) ==> (counters matches Some(subscribed) && has_key(subscribed, key))
}

/// Whether the key of a processor, if it has one, is `key`.
pub open spec fn keyed(p: ProcessorView, key: CounterKey) -> bool {
    p.key matches Some(own) ==> own == key
}

/// A processor after a refresh of the counters: one that a counter feeds takes
/// that counter's sample, taken at `now`; one that no counter feeds is
/// unchanged.
pub open spec fn sampled_from(p: ProcessorView, counters: Seq<Counter>, now: u64) -> ProcessorView {
    match p.key {
        Some(key) => match counter_of(counters, key).sample {
            Some(used_time) => p.sampled(used_time, now),
            None => p,
        },
        None => p,
    }
}

/// The snapshot as plain values.
pub struct SystemView {
    /// The tracked processes by pid.
    pub processes: Map<Pid, ProcessView>,
    /// Physical memory in bytes.
    pub mem_total: u64,
    pub mem_free: u64,
    /// Swap in bytes.
    pub swap_total: u64,
    pub swap_free: u64,
    pub global_processor: ProcessorView,
    pub processors: Seq<ProcessorView>,
    /// The counters of the query session; `None` without a session.
    pub counters: Option<Seq<Counter>>,
    /// Seconds since the epoch at which the machine booted.
    pub boot_time: u64,
}

impl SystemView {
    /// The invariant of a snapshot: the registry is finite and keyed by the
    /// pids of its entries, every usage is a valid percentage, free swap does
    /// not exceed the total, no two counters share a key, every processor
    /// that a counter feeds finds that counter subscribed, and the key of a
    /// processor is its own: that of the aggregate for the aggregate, that of
    /// its position for a core.
    pub open spec fn wf(self) -> bool {
        &&& self.processes.dom().finite()
        &&& forall|pid: Pid| #[trigger]
            self.processes.contains_key(pid) ==> self.processes[pid].pid == pid
                && self.processes[pid].wf()
        &&& self.swap_free <= self.swap_total
        &&& self.global_processor.wf()
        &&& forall|i: int| 0 <= i < self.processors.len() ==> (#[trigger] self.processors[i]).wf()
        &&& self.counters matches Some(subscribed) ==> distinct_keys(subscribed)
        &&& fed(self.global_processor, self.counters)
        &&& forall|i: int|
            0 <= i < self.processors.len() ==> fed(#[trigger] self.processors[i], self.counters)
        &&& keyed(self.global_processor, CounterKey::Total)
        &&& forall|i: int|
            0 <= i < self.processors.len() ==> keyed(
                #[trigger] self.processors[i],
                CounterKey::Core(i as usize),
            )
    }

    /// The snapshot that `startup` describes, before any refresh: no process,
    /// no memory figures, every usage zero, and each processor fed by the
    /// counter that was subscribed for it.
    pub open spec fn assembled(startup: StartupView) -> SystemView {
        let counters = if startup.counters_available {
            Some(subscribed_counters(startup.subscriptions, startup.cores.len() as int))
        } else {
            None
        };
        SystemView {
            processes: Map::empty(),
            mem_total: 0,
            mem_free: 0,
            swap_total: 0,
            swap_free: 0,
            global_processor: ProcessorView {
                name: total_cpu_name(),
                vendor_id: startup.vendor_id,
                brand: startup.brand,
                frequency: 0,
                usage: 0,
                key: key_if_subscribed(counters, CounterKey::Total),
                baseline: None,
            },
            processors: Seq::new(
                startup.cores.len(),
                |i: int|
                    ProcessorView {
                        name: startup.cores[i].name,
                        vendor_id: startup.vendor_id,
                        brand: startup.brand,
                        frequency: startup.cores[i].frequency,
                        usage: 0,
                        key: key_if_subscribed(counters, CounterKey::Core(i as usize)),
                        baseline: None,
                    },
            ),
            counters,
            boot_time: boot_time_of(startup.wall_clock, startup.tick_count),
        }
    }

    /// What `refresh_processes` leaves. Every tracked process about which the
    /// batch holds a report is evaluated once, against the report that
    /// decides about it: it is refreshed in place if that report shows it
    /// alive and evicted if not. A tracked process without a report is
    /// unchanged, and no process is admitted.
    pub open spec fn after_processes_refresh(
        self,
        reports: Seq<ProcessReportView>,
        now: u64,
    ) -> SystemView {
        SystemView {
            processes: Map::new(
                |pid: Pid|
                    self.processes.contains_key(pid) && match deciding_report(reports, pid) {
                        Some(report) => shows_alive(report.sighting),
                        None => true,
                    },
                |pid: Pid|
                    match deciding_report(reports, pid) {
                        Some(report) => self.processes[pid].refreshed(
                            report.sighting.unwrap(),
                            true,
                            self.processors.len() as int,
                            now,
                        ),
                        None => self.processes[pid],
                    },
            ),
            ..self
        }
    }

    /// What `refresh_specifics` leaves: the refreshes of the chosen
    /// categories, memory first, then the processors, then the processes.
    pub open spec fn after_refreshes(self, refreshes: RefreshKind, readings: ReadingsView) -> SystemView {
        let with_memory = if refreshes.memory() {
            self.after_memory_refresh(readings.memory)
        } else {
            self
        };
        let with_cpu = if refreshes.cpu() {
            with_memory.after_cpu_refresh(readings.counters, readings.now)
        } else {
            with_memory
        };
        if refreshes.processes() {
            with_cpu.after_processes_refresh(readings.processes, readings.now)
        } else {
            with_cpu
        }
    }

    /// Total physical memory in kibibytes: the byte count shifted right by
    /// ten, that is, divided by 1024 and rounded down.
    pub open spec fn total_memory(self) -> u64 {
        self.mem_total / 1024
    }

    /// Free physical memory in kibibytes.
    pub open spec fn free_memory(self) -> u64 {
        self.mem_free / 1024
    }

    /// Used physical memory in kibibytes.
    pub open spec fn used_memory(self) -> u64 {
        (self.mem_total / 1024 - self.mem_free / 1024) as u64
    }

    /// Total swap in kibibytes.
    pub open spec fn total_swap(self) -> u64 {
        self.swap_total / 1024
    }

    /// Free swap in kibibytes.
    pub open spec fn free_swap(self) -> u64 {
        self.swap_free / 1024
    }

    /// Used swap in kibibytes.
    pub open spec fn used_swap(self) -> u64 {
        (self.swap_total / 1024 - self.swap_free / 1024) as u64
    }

    /// The snapshot after a memory reading: both figures are stored as they
    /// were reported.
    pub open spec fn after_memory_refresh(self, status: MemoryStatus) -> SystemView {
        SystemView { mem_total: status.total_phys, mem_free: status.avail_phys, ..self }
    }

    /// What `refresh_cpu` leaves. With a session and a batch that holds a
    /// value for every counter, the counters take their values and every
    /// processor takes the sample of the counter that feeds it. Without a
    /// session, or with a batch that misses a counter, nothing changes.
    pub open spec fn after_cpu_refresh(self, batch: Seq<RawReading>, now: u64) -> SystemView {
        match self.counters {
            Some(subscribed) => if covers(batch, subscribed) {
                SystemView {
                    counters: Some(resampled(subscribed, batch)),
                    global_processor: sampled_from(
                        self.global_processor,
                        resampled(subscribed, batch),
                        now,
                    ),
                    processors: Seq::new(
                        self.processors.len(),
                        |i: int| sampled_from(self.processors[i], resampled(subscribed, batch), now),
                    ),
                    ..self
                }
            } else {
                self
            },
            None => self,
        }
    }

    /// What `refresh_existing_process` leaves: a tracked process that the
    /// report shows alive is refreshed in place, and nothing else changes.
    pub open spec fn after_existing_refresh(
        self,
        pid: Pid,
        sighting: Option<ProcessSightingView>,
        compute_cpu: bool,
        now: u64,
    ) -> SystemView {
        if self.processes.contains_key(pid) && shows_alive(sighting) {
            SystemView {
                processes: self.processes.insert(
                    pid,
                    self.processes[pid].refreshed(
                        sighting.unwrap(),
                        compute_cpu,
                        self.processors.len() as int,
                        now,
                    ),
                ),
                ..self
            }
        } else {
            self
        }
    }

    /// What `refresh_process` returns. A tracked process is there as long as
    /// its liveness probe shows it alive. A process that is not tracked is
    /// there as soon as the platform finds it: it is admitted without a
    /// probe.
    pub open spec fn process_is_there(self, pid: Pid, sighting: Option<ProcessSightingView>) -> bool {
        if self.processes.contains_key(pid) {
            shows_alive(sighting)
        } else {
            sighting is Some
        }
    }

    /// What `refresh_process` leaves. A tracked process is refreshed in place
    /// if the report shows it alive and evicted if not. A process that is not
    /// tracked is admitted if the platform found it, with usage zero and its
    /// first sample retained; if the platform has no such process, nothing
    /// changes.
    pub open spec fn after_process_refresh(
        self,
        pid: Pid,
        sighting: Option<ProcessSightingView>,
        now: u64,
    ) -> SystemView {
        if self.processes.contains_key(pid) {
            if shows_alive(sighting) {
                self.after_existing_refresh(pid, sighting, true, now)
            } else {
                SystemView { processes: self.processes.remove(pid), ..self }
            }
        } else {
            match sighting {
                Some(found) => SystemView {
                    processes: self.processes.insert(
                        pid,
                        ProcessView::admitted(pid, found, self.processors.len() as int, now),
                    ),
                    ..self
                },
                None => self,
            }
        }
    }
}

/// Total memory less free memory is used memory, all three in kibibytes,
/// in every snapshot whose free memory does not exceed the total, in
/// kibibytes or in bytes; and likewise for swap in every well-formed
/// snapshot.
pub proof fn lemma_memory_is_consistent(s: SystemView)
    ensures
        s.free_memory() <= s.total_memory() ==> s.total_memory() - s.free_memory()
            == s.used_memory(),
        s.mem_free <= s.mem_total ==> s.free_memory() <= s.total_memory(),
        s.wf() ==> s.total_swap() - s.free_swap() == s.used_swap(),
{
}

/// In a well-formed snapshot the usage of the aggregate processor, of every
/// core and of every tracked process lies between 0 and 100 percent.
pub proof fn lemma_snapshot_usage_in_range(s: SystemView)
    requires
        s.wf(),
    ensures
        0 <= s.global_processor.usage <= 10_000,
        forall|i: int| 0 <= i < s.processors.len() ==> 0 <= (#[trigger] s.processors[i]).usage <= 10_000,
        forall|pid: Pid| #[trigger]
            s.processes.contains_key(pid) ==> 0 <= s.processes[pid].usage <= 10_000,
{
}

/// Every refresh leaves a well-formed snapshot well formed, whatever the
/// platform reported; so every usage is between 0 and 100 percent after any
/// refresh.
pub proof fn lemma_refresh_keeps_well_formed(
    s: SystemView,
    refreshes: RefreshKind,
    readings: ReadingsView,
    pid: Pid,
    sighting: Option<ProcessSightingView>,
    compute_cpu: bool,
)
    requires
        s.wf(),
    ensures
        s.after_memory_refresh(readings.memory).wf(),
        s.after_cpu_refresh(readings.counters, readings.now).wf(),
        s.after_existing_refresh(pid, sighting, compute_cpu, readings.now).wf(),
        s.after_process_refresh(pid, sighting, readings.now).wf(),
        s.after_processes_refresh(readings.processes, readings.now).wf(),
        s.after_refreshes(refreshes, readings).wf(),
{
    lemma_memory_refresh_well_formed(s, readings.memory);
    lemma_cpu_refresh_well_formed(s, readings.counters, readings.now);
    lemma_process_refresh_well_formed(s, pid, sighting, compute_cpu, readings.now);
    lemma_processes_refresh_well_formed(s, readings.processes, readings.now);
    let with_memory = if refreshes.memory() {
        s.after_memory_refresh(readings.memory)
    } else {
        s
    };
    lemma_cpu_refresh_well_formed(with_memory, readings.counters, readings.now);
    let with_cpu = if refreshes.cpu() {
        with_memory.after_cpu_refresh(readings.counters, readings.now)
    } else {
        with_memory
    };
    lemma_processes_refresh_well_formed(with_cpu, readings.processes, readings.now);
}

/// A memory reading leaves a well-formed snapshot well formed.
proof fn lemma_memory_refresh_well_formed(s: SystemView, status: MemoryStatus)
    requires
        s.wf(),
    ensures
        s.after_memory_refresh(status).wf(),
{
}

/// A refresh of the processors leaves a well-formed snapshot well formed.
proof fn lemma_cpu_refresh_well_formed(s: SystemView, batch: Seq<RawReading>, now: u64)
    requires
        s.wf(),
    ensures
        s.after_cpu_refresh(batch, now).wf(),
{
    let after = s.after_cpu_refresh(batch, now);
    if after != s {
        let subscribed = s.counters.unwrap();
        let fresh = resampled(subscribed, batch);
        lemma_resampled_distinct(subscribed, batch);
        assert forall|p: ProcessorView| p.wf() && fed(p, s.counters) implies sampled_from(
            p,
            fresh,
            now,
        ).wf() && fed(sampled_from(p, fresh, now), after.counters) by {
            if let Some(key) = p.key {
                lemma_resampled_keys(subscribed, batch, key);
                if let Some(used_time) = counter_of(fresh, key).sample {
                    lemma_sampled_processor_in_range(p, used_time, now);
                }
            }
        }
        assert forall|i: int| 0 <= i < after.processors.len() implies (
        #[trigger] after.processors[i]).wf() && fed(after.processors[i], after.counters) by {}
    }
}

/// A refresh of one process leaves a well-formed snapshot well formed.
proof fn lemma_process_refresh_well_formed(
    s: SystemView,
    pid: Pid,
    sighting: Option<ProcessSightingView>,
    compute_cpu: bool,
    now: u64,
)
    requires
        s.wf(),
    ensures
        s.after_existing_refresh(pid, sighting, compute_cpu, now).wf(),
        s.after_process_refresh(pid, sighting, now).wf(),
{
    if let Some(report) = sighting {
        let cores = s.processors.len() as int;
        if s.processes.contains_key(pid) {
            lemma_refreshed_process_in_range(s.processes[pid], pid, report, compute_cpu, cores, now);
            lemma_refreshed_process_in_range(s.processes[pid], pid, report, true, cores, now);
        } else {
            lemma_refreshed_process_in_range(
                ProcessView::admitted(pid, report, cores, now),
                pid,
                report,
                true,
                cores,
                now,
            );
        }
    }
}

/// A refresh of all processes leaves a well-formed snapshot well formed.
proof fn lemma_processes_refresh_well_formed(
    s: SystemView,
    reports: Seq<ProcessReportView>,
    now: u64,
)
    requires
        s.wf(),
    ensures
        s.after_processes_refresh(reports, now).wf(),
{
    let after = s.after_processes_refresh(reports, now);
    vstd::set_lib::lemma_len_subset(after.processes.dom(), s.processes.dom());
    assert forall|pid: Pid| #[trigger] after.processes.contains_key(pid) implies after.processes[pid].pid
        == pid && after.processes[pid].wf() by {
        if let Some(report) = deciding_report(reports, pid) {
            lemma_refreshed_process_in_range(
                s.processes[pid],
                pid,
                report.sighting.unwrap(),
                true,
                s.processors.len() as int,
                now,
            );
        }
    }
}

/// The first computation of a usage yields exactly zero. A processor of which
/// no sample was retained has usage zero once a refresh has given it one, and
/// a process is admitted with usage zero, whatever the counters and the CPU
/// times hold.
pub proof fn lemma_first_computation_is_zero(
    s: SystemView,
    batch: Seq<RawReading>,
    pid: Pid,
    sighting: Option<ProcessSightingView>,
    now: u64,
)
    ensures
        ({
            let after = s.after_cpu_refresh(batch, now);
            &&& s.global_processor.baseline is None && after.global_processor.baseline is Some
                ==> after.global_processor.usage == 0
            &&& forall|i: int|
                0 <= i < s.processors.len() && (#[trigger] s.processors[i]).baseline is None
                    && after.processors[i].baseline is Some ==> after.processors[i].usage == 0
        }),
        !s.processes.contains_key(pid) && sighting is Some ==> s.after_process_refresh(
            pid,
            sighting,
            now,
        ).processes[pid].usage == 0,
{
}

/// A processor that no counter feeds keeps its usage through every refresh of
/// the processors: where no counter could be subscribed, every usage stays
/// what it was when the snapshot was made, zero.
pub proof fn lemma_unfed_processor_is_unchanged(s: SystemView, batch: Seq<RawReading>, now: u64)
    ensures
        ({
            let after = s.after_cpu_refresh(batch, now);
            &&& after.processors.len() == s.processors.len()
            &&& s.global_processor.key is None ==> after.global_processor == s.global_processor
            &&& forall|i: int|
                0 <= i < s.processors.len() && (#[trigger] s.processors[i]).key is None
                    ==> after.processors[i] == s.processors[i]
        }),
{
}

/// The snapshot of a machine on which no counter was subscribed feeds no
/// processor, and every usage in a newly assembled snapshot is zero.
pub proof fn lemma_assembled_snapshot(startup: StartupView)
    ensures
        SystemView::assembled(startup).wf(),
        SystemView::assembled(startup).global_processor.usage == 0,
        forall|i: int|
            0 <= i < startup.cores.len() ==> (#[trigger] SystemView::assembled(
                startup,
            ).processors[i]).usage == 0,
        startup.subscriptions.len() == 0 ==> SystemView::assembled(startup).global_processor.key
            is None && forall|i: int|
            0 <= i < startup.cores.len() ==> (#[trigger] SystemView::assembled(
                startup,
            ).processors[i]).key is None,
{
    lemma_subscribed_counters_distinct(startup.subscriptions, startup.cores.len() as int);
}

/// The counters that a run of subscriptions leaves have distinct keys.
pub proof fn lemma_subscribed_counters_distinct(requests: Seq<Subscription>, cores: int)
    ensures
        distinct_keys(subscribed_counters(requests, cores)),
    decreases requests.len(),
{
    if requests.len() > 0 {
        lemma_subscribed_counters_distinct(requests.drop_last(), cores);
        lemma_with_counter_distinct(
            subscribed_counters(requests.drop_last(), cores),
            requests.last().key,
            requests.last().handle,
        );
    }
}

/// Where the catalog cannot translate the processor category or the
/// busy-time counter, the snapshot made from the outcomes of its plan has
/// every processor of the machine, subscribes no counter and feeds no
/// processor, and every usage is zero, at first and after any refresh of the
/// processors.
pub proof fn lemma_failed_translation_leaves_usage_at_zero(
    table: Seq<Seq<char>>,
    startup: StartupView,
    handles: Seq<Option<CounterHandle>>,
    batch: Seq<RawReading>,
    now: u64,
)
    requires
        translation_of(table, processor_category()) is None || translation_of(
            table,
            processor_time_counter(),
        ) is None,
        startup.subscriptions == outcomes_of(plan_of(table, startup.cores.len()), handles),
    ensures
        ({
            let made = SystemView::assembled(startup);
            let after = made.after_cpu_refresh(batch, now);
            &&& made.wf()
            &&& startup.subscriptions.len() == 0
            &&& made.counters matches Some(subscribed) ==> subscribed.len() == 0
            &&& made.processors.len() == startup.cores.len()
            &&& after.processors.len() == startup.cores.len()
            &&& made.global_processor.key is None
            &&& made.global_processor.usage == 0
            &&& after.global_processor.usage == 0
            &&& forall|i: int|
                0 <= i < startup.cores.len() ==> (#[trigger] made.processors[i]).key is None
                    && made.processors[i].usage == 0
            &&& forall|i: int|
                0 <= i < startup.cores.len() ==> (#[trigger] after.processors[i]).usage == 0
        }),
{
    lemma_assembled_snapshot(startup);
    lemma_unfed_processor_is_unchanged(SystemView::assembled(startup), batch, now);
    let made = SystemView::assembled(startup);
    let after = made.after_cpu_refresh(batch, now);
    assert forall|i: int| 0 <= i < startup.cores.len() implies (#[trigger] after.processors[i]).usage
        == 0 by {
        assert(made.processors[i].key is None);
    }
}

/// The key of the request at a position of a full plan: the aggregate first,
/// then the cores in the order of their positions.
pub open spec fn planned_key(position: int) -> CounterKey {
    if position == 0 {
        CounterKey::Total
    } else {
        CounterKey::Core((position - 1) as usize)
    }
}

/// The counters that the first `upto` outcomes of a full plan leave, where the
/// platform gave a handle for each: one counter per outcome, in order.
proof fn lemma_full_plan_prefix(
    table: Seq<Seq<char>>,
    cores: nat,
    handles: Seq<Option<CounterHandle>>,
    upto: int,
)
    requires
        translation_of(table, processor_category()) is Some,
        translation_of(table, processor_time_counter()) is Some,
        cores <= usize::MAX,
        handles.len() == cores + 1,
        forall|i: int| 0 <= i <= cores ==> (#[trigger] handles[i]) is Some,
        0 <= upto <= cores + 1,
    ensures
        subscribed_counters(outcomes_of(plan_of(table, cores), handles).take(upto), cores as int)
            == Seq::new(
            upto as nat,
            |i: int| Counter { key: planned_key(i), handle: handles[i].unwrap(), sample: None },
        ),
    decreases upto,
{
    let outcomes = outcomes_of(plan_of(table, cores), handles);
    let wanted = Seq::new(
        upto as nat,
        |i: int| Counter { key: planned_key(i), handle: handles[i].unwrap(), sample: None },
    );
    if upto == 0 {
        assert(subscribed_counters(outcomes.take(upto), cores as int) =~= wanted);
    } else {
        lemma_full_plan_prefix(table, cores, handles, upto - 1);
        let earlier = subscribed_counters(outcomes.take(upto - 1), cores as int);
        let last = outcomes[upto - 1];
        assert(outcomes.take(upto).drop_last() =~= outcomes.take(upto - 1));
        assert(outcomes.take(upto).last() == last);
        assert(last.key == planned_key(upto - 1));
        assert(last.handle == handles[upto - 1]);
        lemma_position_of(earlier, last.key);
        assert(!has_key(earlier, last.key)) by {
            if let Some(found) = crate::session::position_of(earlier, last.key) {
                assert(earlier[found].key == planned_key(found));
            }
        }
        assert(subscribed_counters(outcomes.take(upto), cores as int) =~= wanted);
    }
}

/// Where the catalog translates both names and the platform gives a handle
/// for every request of the plan, the session holds exactly one counter for
/// the aggregate and one for each core, under pairwise distinct keys; and an
/// outcome that comes a second time leaves the counters as they are.
pub proof fn lemma_full_plan_subscribes_each_key_once(
    table: Seq<Seq<char>>,
    cores: nat,
    handles: Seq<Option<CounterHandle>>,
    again: int,
)
    requires
        translation_of(table, processor_category()) is Some,
        translation_of(table, processor_time_counter()) is Some,
        cores <= usize::MAX,
        handles.len() == cores + 1,
        forall|i: int| 0 <= i <= cores ==> (#[trigger] handles[i]) is Some,
        0 <= again <= cores,
    ensures
        ({
            let outcomes = outcomes_of(plan_of(table, cores), handles);
            let subscribed = subscribed_counters(outcomes, cores as int);
            &&& outcomes.len() == cores + 1
            &&& subscribed.len() == cores + 1
            &&& distinct_keys(subscribed)
            &&& forall|i: int|
                0 <= i <= cores ==> (#[trigger] subscribed[i]) == (Counter {
                    key: planned_key(i),
                    handle: handles[i].unwrap(),
                    sample: None,
                })
            &&& forall|i: int| 0 <= i <= cores ==> has_key(subscribed, #[trigger] planned_key(i))
            &&& subscribed_counters(outcomes.push(outcomes[again]), cores as int) == subscribed
        }),
{
    let outcomes = outcomes_of(plan_of(table, cores), handles);
    let subscribed = subscribed_counters(outcomes, cores as int);
    lemma_full_plan_prefix(table, cores, handles, (cores + 1) as int);
    assert(outcomes.take((cores + 1) as int) =~= outcomes);
    lemma_subscribed_counters_distinct(outcomes, cores as int);
    assert forall|i: int| 0 <= i <= cores implies has_key(subscribed, #[trigger] planned_key(i)) by {
        lemma_position_of(subscribed, planned_key(i));
        assert(subscribed[i].key == planned_key(i));
    }
    let repeated = outcomes.push(outcomes[again]);
    assert(repeated.drop_last() =~= outcomes);
    assert(repeated.last().key == planned_key(again));
}

/// Where the counter subsystem is there, the catalog translates both names
/// and the platform gives a handle for every request of the plan, the
/// snapshot made from the outcomes feeds every processor from its own
/// counter.
pub proof fn lemma_full_plan_feeds_every_processor(
    table: Seq<Seq<char>>,
    startup: StartupView,
    handles: Seq<Option<CounterHandle>>,
)
    requires
        startup.counters_available,
        translation_of(table, processor_category()) is Some,
        translation_of(table, processor_time_counter()) is Some,
        startup.cores.len() <= usize::MAX,
        handles.len() == startup.cores.len() + 1,
        forall|i: int| 0 <= i <= startup.cores.len() ==> (#[trigger] handles[i]) is Some,
        startup.subscriptions == outcomes_of(plan_of(table, startup.cores.len()), handles),
    ensures
        SystemView::assembled(startup).counters matches Some(subscribed) && subscribed.len()
            == startup.cores.len() + 1,
        SystemView::assembled(startup).global_processor.key == Some(CounterKey::Total),
        forall|i: int|
            0 <= i < startup.cores.len() ==> (#[trigger] SystemView::assembled(
                startup,
            ).processors[i]).key == Some(CounterKey::Core(i as usize)),
{
    lemma_full_plan_subscribes_each_key_once(table, startup.cores.len(), handles, 0);
    assert(planned_key(0) == CounterKey::Total);
    assert forall|i: int| 0 <= i < startup.cores.len() implies (#[trigger] SystemView::assembled(
        startup,
    ).processors[i]).key == Some(CounterKey::Core(i as usize)) by {
        assert(planned_key(i + 1) == CounterKey::Core(i as usize));
    }
}

/// The processors are independent series: what a refresh makes of the core at
/// a position depends on the value that the batch holds for that core's own
/// counter and on nothing else in the batch.
pub proof fn lemma_series_are_independent(
    s: SystemView,
    first: Seq<RawReading>,
    second: Seq<RawReading>,
    now: u64,
    position: int,
)
    requires
        s.wf(),
        0 <= position < s.processors.len(),
        s.counters matches Some(subscribed) && covers(first, subscribed) && covers(
            second,
            subscribed,
        ),
        s.processors[position].key is Some,
        ({
            let own = counter_of(s.counters.unwrap(), CounterKey::Core(position as usize)).handle;
            reading_of(first, own) == reading_of(second, own)
        }),
    ensures
        s.processors[position].key == Some(CounterKey::Core(position as usize)),
        s.after_cpu_refresh(first, now).processors[position] == s.after_cpu_refresh(
            second,
            now,
        ).processors[position],
{
    let subscribed = s.counters.unwrap();
    let key = CounterKey::Core(position as usize);
    assert(keyed(s.processors[position], key));
    assert(fed(s.processors[position], s.counters));
    lemma_resampled_keys(subscribed, first, key);
    lemma_resampled_keys(subscribed, second, key);
}

/// A tracked process whose liveness probe reports it terminated is not in
/// the registry after the refresh that took the report, and the refresh of
/// that one process says so: neither after a refresh of that one process nor
/// after a refresh of all, where the report that decides about it says so.
pub proof fn lemma_terminated_process_is_evicted(
    s: SystemView,
    pid: Pid,
    sighting: Option<ProcessSightingView>,
    reports: Seq<ProcessReportView>,
    now: u64,
)
    requires
        s.processes.contains_key(pid),
    ensures
        !shows_alive(sighting) ==> !s.process_is_there(pid, sighting) && !s.after_process_refresh(
            pid,
            sighting,
            now,
        ).processes.contains_key(pid),
        (deciding_report(reports, pid) matches Some(report) && !shows_alive(report.sighting))
            ==> !s.after_processes_refresh(reports, now).processes.contains_key(pid),
{
}

/// What a refresh of one process returns is whether the process is in the
/// registry afterwards. A process that was not tracked and that the platform
/// finds is admitted: the registry grows by exactly its pid, and the new
/// entry carries that pid and holds nothing of an entry evicted earlier.
pub proof fn lemma_process_refresh_result(
    s: SystemView,
    pid: Pid,
    sighting: Option<ProcessSightingView>,
    now: u64,
)
    requires
        s.wf(),
    ensures
        s.process_is_there(pid, sighting) == s.after_process_refresh(
            pid,
            sighting,
            now,
        ).processes.contains_key(pid),
        !s.processes.contains_key(pid) && sighting is Some ==> ({
            let after = s.after_process_refresh(pid, sighting, now);
            &&& after.processes.dom() == s.processes.dom().insert(pid)
            &&& after.processes.dom().len() == s.processes.dom().len() + 1
            &&& after.processes[pid] == ProcessView::admitted(
                pid,
                sighting.unwrap(),
                s.processors.len() as int,
                now,
            )
            &&& after.processes[pid].pid == pid
            &&& after.processes[pid].usage == 0
        }),
{
    if !s.processes.contains_key(pid) && sighting is Some {
        let after = s.after_process_refresh(pid, sighting, now);
        assert(after.processes.dom() =~= s.processes.dom().insert(pid));
    }
}

/// A refresh of a process that the platform does not have and that was never
/// tracked changes nothing: no entry is made for it.
pub proof fn lemma_unknown_process_changes_nothing(s: SystemView, pid: Pid, now: u64)
    requires
        !s.processes.contains_key(pid),
    ensures
        !s.process_is_there(pid, None),
        s.after_process_refresh(pid, None, now) == s,
{
}

/// A refresh of one category leaves the others as they were.
pub proof fn lemma_refreshes_are_independent(
    s: SystemView,
    status: MemoryStatus,
    batch: Seq<RawReading>,
    pid: Pid,
    sighting: Option<ProcessSightingView>,
    reports: Seq<ProcessReportView>,
    now: u64,
)
    ensures
        ({
            let after = s.after_memory_refresh(status);
            &&& after.processes == s.processes
            &&& after.global_processor == s.global_processor
            &&& after.processors == s.processors
            &&& after.counters == s.counters
            &&& after.boot_time == s.boot_time
        }),
        ({
            let after = s.after_cpu_refresh(batch, now);
            &&& after.processes == s.processes
            &&& after.mem_total == s.mem_total
            &&& after.mem_free == s.mem_free
            &&& after.boot_time == s.boot_time
        }),
        ({
            let after = s.after_process_refresh(pid, sighting, now);
            &&& after.mem_total == s.mem_total
            &&& after.mem_free == s.mem_free
            &&& after.global_processor == s.global_processor
            &&& after.processors == s.processors
            &&& after.counters == s.counters
            &&& after.boot_time == s.boot_time
            &&& forall|other: Pid|
                other != pid ==> after.processes.contains_key(other) == s.processes.contains_key(
                    other,
                ) && (s.processes.contains_key(other) ==> after.processes[other]
                    == s.processes[other])
        }),
        ({
            let after = s.after_processes_refresh(reports, now);
            &&& after.mem_total == s.mem_total
            &&& after.mem_free == s.mem_free
            &&& after.global_processor == s.global_processor
            &&& after.processors == s.processors
            &&& after.counters == s.counters
            &&& after.boot_time == s.boot_time
        }),
{
}

} // verus!
