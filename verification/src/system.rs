//! The snapshot: the one long-lived value that a caller refreshes and reads.

use std::collections::HashMap;
use std::collections::HashSet;
use vstd::prelude::*;
use crate::platform::{MemoryStatus, Readings, Startup};
use crate::process::{
    compute_cpu_usage, deciding_report, is_proc_running, seen, shows_alive, update_proc_info, Pid,
    Process, ProcessReport, ProcessSighting, ProcessView,
};
use crate::processor::{Processor, ProcessorView};
use crate::refresh_kind::RefreshKind;
use crate::session::{
    counter_of, has_key, lemma_resampled_distinct, lemma_resampled_keys,
    lemma_with_counter_distinct, CounterHandle, CounterKey, RawReading, Session,
};
use crate::snapshot::{
    boot_time_of, fed, key_if_subscribed, sampled_from, subscribed_counters, SystemView,
    TOTAL_CPU_NAME,
};

verus! {

broadcast use vstd::std_specs::hash::group_hash_axioms;

/// Computes the boot time from one reading of the wall clock and one of the
/// uptime clock.
pub fn boot_time(wall_clock: Option<u64>, tick_count: u64) -> (r: u64)
    ensures
        r == boot_time_of(wall_clock, tick_count),
{
    match wall_clock {
        Some(now) => {
            let uptime = tick_count / 1000;
            if now >= uptime {
                now - uptime
            } else {
                0
            }
        },
        None => 0,
    }
}

/// The snapshot of the host's metrics.
pub struct System {
    process_list: HashMap<Pid, Process>,
    mem_total: u64,
    mem_free: u64,
    swap_total: u64,
    swap_free: u64,
    global_processor: Processor,
    processors: Vec<Processor>,
    query: Option<Session>,
    boot_time: u64,
}

impl View for System {
    type V = SystemView;

    closed spec fn view(&self) -> SystemView {
        SystemView {
            processes: self.process_list@.map_values(|p: Process| p@),
            mem_total: self.mem_total,
            mem_free: self.mem_free,
            swap_total: self.swap_total,
            swap_free: self.swap_free,
            global_processor: self.global_processor@,
            processors: self.processors@.map_values(|p: Processor| p@),
            counters: match self.query {
                Some(session) => Some(session@),
                None => None,
            },
            boot_time: self.boot_time,
        }
    }
}

impl System {
    /// The invariant of every snapshot that this module hands out.
    pub open spec fn wf(&self) -> bool {
        self@.wf()
    }

    /// Makes the snapshot of a machine from what the platform reported at
    /// startup, then refreshes the categories that `refreshes` names from
    /// `readings`.
    pub fn new_with_specifics(refreshes: RefreshKind, startup: Startup, readings: Readings) -> (s:
        System)
        ensures
            s.wf(),
            s@ == SystemView::assembled(startup@).after_refreshes(refreshes, readings@),
    {
        let ghost plan = startup@;
        let core_count = startup.cores.len();
        let mut processors: Vec<Processor> = Vec::new();
        let mut i: usize = 0;
        while i < core_count
            invariant
                core_count == startup.cores@.len(),
                i <= core_count,
                processors@.len() == i,
                forall|j: int|
                    0 <= j < i ==> (#[trigger] processors@[j])@ == (ProcessorView {
                        name: startup.cores@[j].name@,
                        vendor_id: startup.vendor_id@,
                        brand: startup.brand@,
                        frequency: startup.cores@[j].frequency,
                        usage: 0,
                        key: None,
                        baseline: None,
                    }),
            decreases core_count - i,
        {
            processors.push(
                Processor::new_with_values(
                    startup.cores[i].name.as_str(),
                    startup.vendor_id.clone(),
                    startup.brand.clone(),
                    startup.cores[i].frequency,
                ),
            );
            i += 1;
        }
        let mut global_processor = Processor::new_with_values(
            TOTAL_CPU_NAME,
            startup.vendor_id,
            startup.brand,
            0,
        );
        let mut query = Session::open(startup.counters_available);
        match &mut query {
            Some(session) => {
                let mut k: usize = 0;
                while k < startup.subscriptions.len()
                    invariant
                        k <= startup.subscriptions@.len(),
                        core_count == plan.cores.len(),
                        startup.subscriptions@ == plan.subscriptions,
                        session.wf(),
                        session@ == subscribed_counters(
                            plan.subscriptions.take(k as int),
                            core_count as int,
                        ),
                        processors@.len() == core_count,
                        global_processor@ == (ProcessorView {
                            key: key_if_subscribed(Some(session@), CounterKey::Total),
                            ..SystemView::assembled(plan).global_processor
                        }),
                        forall|j: int|
                            0 <= j < core_count ==> (#[trigger] processors@[j])@ == (ProcessorView {
                                key: key_if_subscribed(Some(session@), CounterKey::Core(j as usize)),
                                ..SystemView::assembled(plan).processors[j]
                            }),
                    decreases startup.subscriptions@.len() - k,
                {
                    let request = startup.subscriptions[k];
                    proof {
                        assert(plan.subscriptions.take(k + 1).drop_last()
                            =~= plan.subscriptions.take(k as int));
                        lemma_with_counter_distinct(session@, request.key, request.handle);
                    }
                    match request.key {
                        CounterKey::Total => {
                            if session.add_counter(request.key, request.handle) {
                                global_processor.set_key_used(request.key);
                            }
                        },
                        CounterKey::Core(position) => {
                            if position < core_count {
                                if session.add_counter(request.key, request.handle) {
                                    processors[position].set_key_used(request.key);
                                }
                            }
                        },
                    }
                    k += 1;
                }
                assert(plan.subscriptions.take(k as int) =~= plan.subscriptions);
            },
            None => {},
        }
        let mut s = System {
            process_list: HashMap::with_capacity(500),
            mem_total: 0,
            mem_free: 0,
            swap_total: 0,
            swap_free: 0,
            global_processor,
            processors,
            query,
            boot_time: boot_time(startup.wall_clock, startup.tick_count),
        };
        proof {
            assert(s@.processes =~= Map::empty());
            assert(s@.processors =~= SystemView::assembled(plan).processors);
        }
        s.refresh_specifics(refreshes, readings);
        s
    }

    /// Refreshes the categories that `refreshes` names from `readings`:
    /// memory first, then the processors, then the processes.
    pub fn refresh_specifics(&mut self, refreshes: RefreshKind, readings: Readings)
        requires
            old(self).wf(),
        ensures
            final(self).wf(),
            final(self)@ == old(self)@.after_refreshes(refreshes, readings@),
    {
        if refreshes.memory() {
            self.refresh_memory(readings.memory);
        }
        if refreshes.cpu() {
            self.refresh_cpu(&readings.counters, readings.now);
        }
        if refreshes.processes() {
            self.refresh_processes(readings.processes, readings.now);
        }
    }

    /// Re-evaluates the tracked processes against a batch of reports, all
    /// taken at `now`. Each tracked process that the batch reports about is
    /// evaluated exactly once, against the last report about it: it is
    /// refreshed in place if that report shows it alive and evicted if not.
    pub fn refresh_processes(&mut self, reports: Vec<ProcessReport>, now: u64)
        requires
            old(self).wf(),
        ensures
            final(self).wf(),
            final(self)@ == old(self)@.after_processes_refresh(
                reports@.map_values(|r: ProcessReport| r@),
                now,
            ),
    {
        let ghost batch = reports@.map_values(|r: ProcessReport| r@);
        let mut pending = reports;
        let mut decided: HashSet<Pid> = HashSet::new();
        assert(self@.processes =~= old(self)@.after_processes_refresh(
            batch.skip(pending@.len() as int),
            now,
        ).processes);
        while pending.len() > 0
            invariant
                self.wf(),
                pending@.len() <= batch.len(),
                pending@.map_values(|r: ProcessReport| r@) == batch.take(pending@.len() as int),
                forall|pid: Pid|
                    decided@.contains(pid) <==> deciding_report(
                        batch.skip(pending@.len() as int),
                        pid,
                    ) is Some,
                self@ == old(self)@.after_processes_refresh(batch.skip(pending@.len() as int), now),
            decreases pending@.len(),
        {
            let ghost rest = batch.skip(pending@.len() as int);
            let ghost position = pending@.len() - 1;
            let report = pending.pop().unwrap();
            let ghost shown = report@;
            let pid = report.pid;
            proof {
                assert(shown == batch[position]) by {
                    assert(batch.take(position + 1)[position] == batch[position]);
                }
                assert(batch.skip(position).drop_first() =~= rest);
            }
            let ghost target = old(self)@.after_processes_refresh(batch.skip(position), now);
            if !decided.contains(&pid) {
                decided.insert(pid);
                if self.process_list.contains_key(&pid) {
                    if !refresh_existing_process(self, pid, true, report.sighting, now) {
                        let ghost kept = self@;
                        self.process_list.remove(&pid);
                        assert(self@.processes =~= kept.processes.remove(pid));
                        assert(self@.processes =~= target.processes);
                    } else {
                        assert(self@.processes =~= target.processes);
                    }
                } else {
                    assert(self@.processes =~= target.processes);
                }
            } else {
                assert(self@.processes =~= target.processes);
            }
        }
    }

    /// Takes a reading of physical memory and stores it as reported.
    pub fn refresh_memory(&mut self, status: MemoryStatus)
        requires
            old(self).wf(),
        ensures
            final(self).wf(),
            final(self)@ == old(self)@.after_memory_refresh(status),
    {
        self.mem_total = status.total_phys;
        self.mem_free = status.avail_phys;
    }

    /// Takes one batch of raw counter values, read at `now`, and recomputes
    /// the usage of every processor that a counter feeds. The values and
    /// `now` are in the same unit, the tick of the counters.
    pub fn refresh_cpu(&mut self, batch: &Vec<RawReading>, now: u64)
        requires
            old(self).wf(),
        ensures
            final(self).wf(),
            final(self)@ == old(self)@.after_cpu_refresh(batch@, now),
            0 <= final(self)@.global_processor.usage <= 10_000,
            forall|i: int|
                0 <= i < final(self)@.processors.len() ==> 0 <= (
                #[trigger] final(self)@.processors[i]).usage <= 10_000,
    {
        let complete = match &mut self.query {
            Some(query) => query.refresh(batch),
            None => false,
        };
        if complete {
            match &self.query {
                Some(query) => {
                    proof {
                        let subscribed = old(self)@.counters.unwrap();
                        lemma_resampled_distinct(subscribed, batch@);
                        assert forall|key: CounterKey|
                            has_key(subscribed, key) implies has_key(query@, key) && counter_of(
                            query@,
                            key,
                        ).sample is Some by {
                            lemma_resampled_keys(subscribed, batch@, key);
                        }
                        assert forall|i: int| 0 <= i < self.processors@.len() implies (
                        #[trigger] self.processors@[i])@.wf() && fed(
                            self.processors@[i]@,
                            Some(subscribed),
                        ) by {
                            assert(old(self)@.processors[i] == self.processors@[i]@);
                        }
                    }
                    sample_processor(&mut self.global_processor, query, now);
                    sample_processors(&mut self.processors, query, now);
                    assert(self@.processors =~= old(self)@.after_cpu_refresh(
                        batch@,
                        now,
                    ).processors);
                },
                None => {},
            }
        }
    }

    /// Takes the report about one process at `now`. A tracked process is
    /// refreshed in place if its liveness probe shows it alive, and evicted
    /// if not. A process that is not tracked is admitted as soon as the
    /// platform finds it, with usage zero. The result says whether the
    /// process is in the registry afterwards.
    pub fn refresh_process(&mut self, pid: Pid, sighting: Option<ProcessSighting>, now: u64) -> (r:
        bool)
        requires
            old(self).wf(),
        ensures
            final(self).wf(),
            r == old(self)@.process_is_there(pid, seen(sighting)),
            r == (if old(self)@.processes.contains_key(pid) {
                shows_alive(seen(sighting))
            } else {
                sighting is Some
            }),
            final(self)@ == old(self)@.after_process_refresh(pid, seen(sighting), now),
            r == final(self)@.processes.contains_key(pid),
            !r && !old(self)@.processes.contains_key(pid) ==> final(self)@ == old(self)@,
            r && !old(self)@.processes.contains_key(pid) ==> final(self)@.processes[pid].usage == 0,
    {
        if self.process_list.contains_key(&pid) {
            if refresh_existing_process(self, pid, true, sighting, now) == false {
                self.process_list.remove(&pid);
                assert(self@.processes =~= old(self)@.processes.remove(pid));
                return false;
            }
            true
        } else {
            match sighting {
                Some(report) => {
                    let mut p = Process::new(pid, report.handle, report.info);
                    compute_cpu_usage(&mut p, self.processors.len() as u64, report.times, now);
                    self.process_list.insert(pid, p);
                    assert(self@.processes =~= old(self)@.processes.insert(
                        pid,
                        ProcessView::admitted(pid, report@, old(self)@.processors.len() as int, now),
                    ));
                    true
                },
                None => {
                    assert(self@.processes =~= old(self)@.processes);
                    false
                },
            }
        }
    }

    /// Total physical memory in kibibytes.
    pub fn get_total_memory(&self) -> (r: u64)
        ensures
            r == self@.total_memory(),
            r == self@.mem_total >> 10,
    {
        let bytes = self.mem_total;
        assert(bytes >> 10 == bytes / 1024) by (bit_vector);
        bytes >> 10
    }

    /// Free physical memory in kibibytes.
    pub fn get_free_memory(&self) -> (r: u64)
        ensures
            r == self@.free_memory(),
            r == self@.mem_free >> 10,
    {
        let bytes = self.mem_free;
        assert(bytes >> 10 == bytes / 1024) by (bit_vector);
        bytes >> 10
    }

    /// Used physical memory in kibibytes: the total less the free, both as
    /// reported in kibibytes. Free memory must not exceed the total.
    pub fn get_used_memory(&self) -> (r: u64)
        requires
            self@.free_memory() <= self@.total_memory(),
        ensures
            r == self@.used_memory(),
            r == self@.total_memory() - self@.free_memory(),
    {
        self.get_total_memory() - self.get_free_memory()
    }

    /// Total swap in kibibytes.
    pub fn get_total_swap(&self) -> (r: u64)
        ensures
            r == self@.total_swap(),
            r == self@.swap_total >> 10,
    {
        let bytes = self.swap_total;
        assert(bytes >> 10 == bytes / 1024) by (bit_vector);
        bytes >> 10
    }

    /// Free swap in kibibytes.
    pub fn get_free_swap(&self) -> (r: u64)
        ensures
            r == self@.free_swap(),
            r == self@.swap_free >> 10,
    {
        let bytes = self.swap_free;
        assert(bytes >> 10 == bytes / 1024) by (bit_vector);
        bytes >> 10
    }

    /// Used swap in kibibytes: the total less the free, both as reported in
    /// kibibytes.
    pub fn get_used_swap(&self) -> (r: u64)
        requires
            self.wf(),
        ensures
            r == self@.used_swap(),
            r == self@.total_swap() - self@.free_swap(),
    {
        self.get_total_swap() - self.get_free_swap()
    }

    /// Seconds since boot, from a reading of the uptime clock in milliseconds.
    pub fn get_uptime(&self, tick_count: u64) -> (r: u64)
        ensures
            r == tick_count / 1000,
    {
        tick_count / 1000
    }

    /// Seconds since the epoch at which the machine booted, as computed when
    /// the snapshot was made.
    pub fn get_boot_time(&self) -> (r: u64)
        ensures
            r == self@.boot_time,
    {
        self.boot_time
    }

    /// The handles of the subscribed counters: what the platform has to read
    /// for the next `refresh_cpu`. There is none without a session.
    pub fn counter_handles(&self) -> (r: Vec<CounterHandle>)
        ensures
            match self@.counters {
                Some(subscribed) => r@.len() == subscribed.len() && forall|i: int|
                    0 <= i < subscribed.len() ==> r@[i] == (#[trigger] subscribed[i]).handle,
                None => r@.len() == 0,
            },
    {
        match &self.query {
            Some(session) => session.handles(),
            None => Vec::new(),
        }
    }

    /// The aggregate processor.
    pub fn get_global_processor_info(&self) -> (r: &Processor)
        ensures
            r@ == self@.global_processor,
    {
        &self.global_processor
    }

    /// The processors, one per core.
    pub fn get_processors(&self) -> (r: &[Processor])
        ensures
            r@.len() == self@.processors.len(),
            forall|i: int| 0 <= i < r@.len() ==> (#[trigger] r@[i])@ == self@.processors[i],
    {
        self.processors.as_slice()
    }

    /// The tracked process with this pid, if there is one.
    pub fn get_process(&self, pid: Pid) -> (r: Option<&Process>)
        ensures
            r is Some <==> self@.processes.contains_key(pid),
            r matches Some(p) ==> p@ == self@.processes[pid],
    {
        self.process_list.get(&pid)
    }

    /// The table of tracked processes, keyed by pid.
    pub fn get_processes(&self) -> (r: &HashMap<Pid, Process>)
        ensures
            r@.dom() == self@.processes.dom(),
            forall|pid: Pid| #[trigger] r@.contains_key(pid) ==> r@[pid]@ == self@.processes[pid],
    {
        &self.process_list
    }
}

/// Gives one processor the sample of the counter that feeds it.
fn sample_processor(p: &mut Processor, query: &Session, now: u64)
    requires
        old(p)@.wf(),
        old(p)@.key matches Some(key) ==> has_key(query@, key) && counter_of(
            query@,
            key,
        ).sample is Some,
    ensures
        final(p)@ == sampled_from(old(p)@, query@, now),
        final(p)@.wf(),
        final(p)@.key == old(p)@.key,
{
    if let Some(key) = p.get_key_used() {
        let used_time = query.get(key);
        p.set_cpu_usage(used_time, now);
    }
}

/// Gives every processor the sample of the counter that feeds it.
fn sample_processors(processors: &mut Vec<Processor>, query: &Session, now: u64)
    requires
        forall|i: int| 0 <= i < old(processors)@.len() ==> (#[trigger] old(processors)@[i])@.wf(),
        forall|i: int|
            0 <= i < old(processors)@.len() ==> ((#[trigger] old(processors)@[i])@.key matches Some(
                key,
            ) ==> has_key(query@, key) && counter_of(query@, key).sample is Some),
    ensures
        final(processors)@.len() == old(processors)@.len(),
        forall|i: int|
            0 <= i < old(processors)@.len() ==> (#[trigger] final(processors)@[i])@ == sampled_from(
                old(processors)@[i]@,
                query@,
                now,
            ),
        forall|i: int| 0 <= i < old(processors)@.len() ==> (#[trigger] final(processors)@[i])@.wf(),
{
    let mut i: usize = 0;
    while i < processors.len()
        invariant
            i <= processors@.len(),
            processors@.len() == old(processors)@.len(),
            forall|j: int| 0 <= j < processors@.len() ==> (#[trigger] processors@[j])@.wf(),
            forall|j: int|
                0 <= j < old(processors)@.len() ==> ((#[trigger] old(processors)@[j])@.key matches Some(
                    key,
                ) ==> has_key(query@, key) && counter_of(query@, key).sample is Some),
            forall|j: int|
                0 <= j < i ==> (#[trigger] processors@[j])@ == sampled_from(
                    old(processors)@[j]@,
                    query@,
                    now,
                ),
            forall|j: int| i <= j < processors@.len() ==> (#[trigger] processors@[j]) == old(processors)@[j],
        decreases processors@.len() - i,
    {
        sample_processor(&mut processors[i], query, now);
        i += 1;
    }
}

/// Refreshes a tracked process from a report about it. Returns `false`, and
/// changes nothing, where the pid is not tracked or the report does not show
/// the process alive; the caller evicts it then. Otherwise the descriptive
/// data is replaced, the usage is recomputed if `compute_cpu` says so, and
/// the result is `true`.
pub fn refresh_existing_process(
    s: &mut System,
    pid: Pid,
    compute_cpu: bool,
    sighting: Option<ProcessSighting>,
    now: u64,
) -> (r: bool)
    requires
        old(s).wf(),
    ensures
        final(s).wf(),
        r == (old(s)@.processes.contains_key(pid) && shows_alive(seen(sighting))),
        final(s)@ == old(s)@.after_existing_refresh(pid, seen(sighting), compute_cpu, now),
{
    match sighting {
        None => false,
        Some(report) => {
            if !is_proc_running(report.exit) {
                return false;
            }
            match s.process_list.remove(&pid) {
                None => {
                    assert(s.process_list@ =~= old(s).process_list@);
                    false
                },
                Some(entry) => {
                    let ghost before = entry@;
                    let mut entry = entry;
                    update_proc_info(&mut entry, report.info);
                    if compute_cpu {
                        compute_cpu_usage(&mut entry, s.processors.len() as u64, report.times, now);
                    }
                    s.process_list.insert(pid, entry);
                    assert(s@.processes =~= old(s)@.processes.insert(
                        pid,
                        before.refreshed(report@, compute_cpu, old(s)@.processors.len() as int, now),
                    ));
                    true
                },
            }
        },
    }
}

} // verus!
