//! Tracked processes and what the platform reports about them.

use vstd::prelude::*;
use crate::usage::{lemma_usage_in_range, usage_between, Sample, UsagePercentage, UsageTracker};

verus! {

/// A process identifier.
pub type Pid = usize;

/// The exit code that the platform reports while a process is still running.
pub const STILL_ACTIVE: u32 = 259;

/// The outcome of asking the platform for a process's exit code.
#[derive(Clone, Copy, Debug, PartialEq, Eq, Structural)]
pub struct ExitQuery {
    /// Whether the query itself succeeded.
    pub succeeded: bool,
    /// The exit code it reported.
    pub exit_code: u32,
}

/// A process counts as running only if the exit-code query succeeded and
/// reported the still-active sentinel.
pub open spec fn still_running(exit: ExitQuery) -> bool {
    exit.succeeded && exit.exit_code == STILL_ACTIVE
}

/// The liveness probe: any failed query and any real exit code mean that the
/// process has terminated.
pub fn is_proc_running(exit: ExitQuery) -> (r: bool)
    ensures
        r == still_running(exit),
{
    !(!exit.succeeded || exit.exit_code != STILL_ACTIVE)
}

/// Cumulative CPU time of a process, in ticks.
#[derive(Clone, Copy, Debug, PartialEq, Eq, Structural)]
pub struct CpuTimes {
    pub kernel: u64,
    pub user: u64,
}

impl CpuTimes {
    /// Kernel and user time together, kept within the range of a sample.
    pub open spec fn spec_busy(self) -> u64 {
        if self.kernel + self.user > u64::MAX {
            u64::MAX
        } else {
            (self.kernel + self.user) as u64
        }
    }

    /// Kernel and user time together, kept within the range of a sample.
    pub fn busy(&self) -> (r: u64)
        ensures
            r == self.spec_busy(),
    {
        if self.kernel > u64::MAX - self.user {
            u64::MAX
        } else {
            self.kernel + self.user
        }
    }
}

/// Descriptive data of a process, as the platform reports it.
#[derive(Debug)]
pub struct ProcessInfo {
    pub name: String,
    pub memory: u64,
    pub virtual_memory: u64,
    pub parent: Option<Pid>,
    pub start_time: u64,
}

/// `ProcessInfo` as plain values.
pub struct ProcessInfoView {
    pub name: Seq<char>,
    pub memory: u64,
    pub virtual_memory: u64,
    pub parent: Option<Pid>,
    pub start_time: u64,
}

impl View for ProcessInfo {
    type V = ProcessInfoView;

    open spec fn view(&self) -> ProcessInfoView {
        ProcessInfoView {
            name: self.name@,
            memory: self.memory,
            virtual_memory: self.virtual_memory,
            parent: self.parent,
            start_time: self.start_time,
        }
    }
}

/// Everything the platform reports about one process at one instant.
#[derive(Debug)]
pub struct ProcessSighting {
    /// The platform's handle for the process.
    pub handle: usize,
    /// The outcome of the exit-code query on that handle.
    pub exit: ExitQuery,
    pub info: ProcessInfo,
    pub times: CpuTimes,
}

/// `ProcessSighting` as plain values.
pub struct ProcessSightingView {
    pub handle: usize,
    pub exit: ExitQuery,
    pub info: ProcessInfoView,
    pub times: CpuTimes,
}

impl View for ProcessSighting {
    type V = ProcessSightingView;

    open spec fn view(&self) -> ProcessSightingView {
        ProcessSightingView {
            handle: self.handle,
            exit: self.exit,
            info: self.info@,
            times: self.times,
        }
    }
}

/// A report as plain values.
pub open spec fn seen(sighting: Option<ProcessSighting>) -> Option<ProcessSightingView> {
    match sighting {
        Some(report) => Some(report@),
        None => None,
    }
}

/// What the platform reports about the process with one pid: a sighting, or
/// nothing where it has no such process.
#[derive(Debug)]
pub struct ProcessReport {
    pub pid: Pid,
    pub sighting: Option<ProcessSighting>,
}

/// `ProcessReport` as plain values.
pub struct ProcessReportView {
    pub pid: Pid,
    pub sighting: Option<ProcessSightingView>,
}

impl View for ProcessReport {
    type V = ProcessReportView;

    open spec fn view(&self) -> ProcessReportView {
        ProcessReportView { pid: self.pid, sighting: seen(self.sighting) }
    }
}

/// The report of a batch that decides about `pid`: the last one about it.
pub open spec fn deciding_report(reports: Seq<ProcessReportView>, pid: Pid) -> Option<
    ProcessReportView,
>
    decreases reports.len(),
{
    if reports.len() == 0 {
        None
    } else {
        match deciding_report(reports.drop_first(), pid) {
            Some(later) => Some(later),
            None => if reports[0].pid == pid {
                Some(reports[0])
            } else {
                None
            },
        }
    }
}

/// Whether a report shows a live process: the platform found the process and
/// its liveness probe says that it is still running.
pub open spec fn shows_alive(sighting: Option<ProcessSightingView>) -> bool {
    match sighting {
        Some(seen) => still_running(seen.exit),
        None => false,
    }
}

/// What a tracked process is, as plain values.
pub struct ProcessView {
    pub pid: Pid,
    pub handle: usize,
    pub info: ProcessInfoView,
    /// Usage in basis points.
    pub usage: int,
    /// The sample that the next one is compared with.
    pub baseline: Option<Sample>,
}

impl ProcessView {
    /// The usage is a valid percentage.
    pub open spec fn wf(self) -> bool {
        0 <= self.usage <= 10_000
    }

    /// A process as it is first seen: no usage data, no sample.
    pub open spec fn first_seen(pid: Pid, handle: usize, info: ProcessInfoView) -> ProcessView {
        ProcessView { pid, handle, info, usage: 0, baseline: None }
    }

    /// The process with its descriptive data replaced.
    pub open spec fn with_info(self, info: ProcessInfoView) -> ProcessView {
        ProcessView { info, ..self }
    }

    /// The process after the CPU times `times`, read at `now` on a machine with
    /// `cores` processors.
    pub open spec fn sampled(self, times: CpuTimes, cores: int, now: u64) -> ProcessView {
        ProcessView {
            usage: usage_between(self.baseline, Sample { busy: times.spec_busy(), at: now }, cores),
            baseline: Some(Sample { busy: times.spec_busy(), at: now }),
            ..self
        }
    }

    /// A tracked process after a report that shows it alive: its descriptive
    /// data is replaced and, if asked for, its usage is recomputed.
    pub open spec fn refreshed(
        self,
        seen: ProcessSightingView,
        compute_cpu: bool,
        cores: int,
        now: u64,
    ) -> ProcessView {
        if compute_cpu {
            self.with_info(seen.info).sampled(seen.times, cores, now)
        } else {
            self.with_info(seen.info)
        }
    }

    /// The entry made for a process that was not tracked before: its usage is
    /// zero and its first sample is retained.
    pub open spec fn admitted(pid: Pid, seen: ProcessSightingView, cores: int, now: u64) -> ProcessView {
        ProcessView::first_seen(pid, seen.handle, seen.info).sampled(seen.times, cores, now)
    }
}

/// A tracked process.
#[derive(Debug)]
pub struct Process {
    pid: Pid,
    handle: usize,
    info: ProcessInfo,
    cpu_usage: UsagePercentage,
    tracker: UsageTracker,
}

impl View for Process {
    type V = ProcessView;

    closed spec fn view(&self) -> ProcessView {
        ProcessView {
            pid: self.pid,
            handle: self.handle,
            info: self.info@,
            usage: self.cpu_usage@,
            baseline: self.tracker@,
        }
    }
}

impl Process {
    /// A process as it is first seen.
    pub fn new(pid: Pid, handle: usize, info: ProcessInfo) -> (r: Process)
        ensures
            r@ == ProcessView::first_seen(pid, handle, info@),
            r@.wf(),
    {
        Process {
            pid,
            handle,
            info,
            cpu_usage: UsagePercentage::zero(),
            tracker: UsageTracker::new(),
        }
    }

    pub fn pid(&self) -> (r: Pid)
        ensures
            r == self@.pid,
    {
        self.pid
    }

    pub fn name(&self) -> (r: &str)
        ensures
            r@ == self@.info.name,
    {
        self.info.name.as_str()
    }

    pub fn memory(&self) -> (r: u64)
        ensures
            r == self@.info.memory,
    {
        self.info.memory
    }

    pub fn virtual_memory(&self) -> (r: u64)
        ensures
            r == self@.info.virtual_memory,
    {
        self.info.virtual_memory
    }

    pub fn parent(&self) -> (r: Option<Pid>)
        ensures
            r == self@.info.parent,
    {
        self.info.parent
    }

    pub fn start_time(&self) -> (r: u64)
        ensures
            r == self@.info.start_time,
    {
        self.info.start_time
    }

    /// The usage computed at the last refresh: between 0 and 100 percent.
    pub fn cpu_usage(&self) -> (r: UsagePercentage)
        ensures
            r@ == self@.usage,
            0 <= r@ <= 10_000,
    {
        let usage = self.cpu_usage;
        let _ = usage.basis_points();
        usage
    }
}

/// The platform's handle of a tracked process: what its liveness is probed
/// through.
pub fn get_handle(p: &Process) -> (r: usize)
    ensures
        r == p@.handle,
{
    p.handle
}

/// Replaces the descriptive data of a tracked process.
pub fn update_proc_info(p: &mut Process, info: ProcessInfo)
    ensures
        final(p)@ == old(p)@.with_info(info@),
{
    p.info = info;
}

/// Recomputes the usage of a process from its CPU times read at `now`: the
/// busy time since the previous reading over the wall time since then, spread
/// over `nb_processors` processors. The first reading yields zero.
pub fn compute_cpu_usage(p: &mut Process, nb_processors: u64, times: CpuTimes, now: u64)
    ensures
        final(p)@ == old(p)@.sampled(times, nb_processors as int, now),
        final(p)@.wf(),
        old(p)@.baseline is None ==> final(p)@.usage == 0,
{
    let usage = p.tracker.observe(times.busy(), now, nb_processors);
    p.cpu_usage = usage;
}

/// The first computation for a process yields a usage of exactly zero: a
/// process is admitted with usage zero, whatever its CPU times are.
pub proof fn lemma_first_sample_of_process(
    p: ProcessView,
    pid: Pid,
    report: ProcessSightingView,
    cores: int,
    now: u64,
)
    ensures
        p.baseline is None ==> p.sampled(report.times, cores, now).usage == 0,
        ProcessView::admitted(pid, report, cores, now).usage == 0,
{
}

/// Whatever is reported, the usage of a process is between 0 and 100 percent
/// after it was admitted and after each refresh.
pub proof fn lemma_refreshed_process_in_range(
    p: ProcessView,
    pid: Pid,
    report: ProcessSightingView,
    compute_cpu: bool,
    cores: int,
    now: u64,
)
    ensures
        ProcessView::admitted(pid, report, cores, now).wf(),
        p.wf() ==> p.refreshed(report, compute_cpu, cores, now).wf(),
        p.refreshed(report, compute_cpu, cores, now).pid == p.pid,
        ProcessView::admitted(pid, report, cores, now).pid == pid,
{
    let current = Sample { busy: report.times.spec_busy(), at: now };
    lemma_usage_in_range(p.baseline, current, cores);
    lemma_usage_in_range(None, current, cores);
}

} // verus!
