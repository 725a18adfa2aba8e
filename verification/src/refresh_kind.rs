//! Which categories of the snapshot a refresh covers.

use vstd::prelude::*;

verus! {

/// A choice among the categories that a refresh can cover.
#[derive(Clone, Copy, Debug, PartialEq, Eq, Structural)]
pub struct RefreshKind {
    memory: bool,
    cpu: bool,
    processes: bool,
}

impl RefreshKind {
    /// Whether memory is to be refreshed.
    pub closed spec fn spec_memory(&self) -> bool {
        self.memory
    }

    /// Whether the processors are to be refreshed.
    pub closed spec fn spec_cpu(&self) -> bool {
        self.cpu
    }

    /// Whether the tracked processes are to be refreshed.
    pub closed spec fn spec_processes(&self) -> bool {
        self.processes
    }

    /// No category.
    pub fn new() -> (r: RefreshKind)
        ensures
            !r.spec_memory(),
            !r.spec_cpu(),
            !r.spec_processes(),
    {
        RefreshKind { memory: false, cpu: false, processes: false }
    }

    /// Every category.
    pub fn everything() -> (r: RefreshKind)
        ensures
            r.spec_memory(),
            r.spec_cpu(),
            r.spec_processes(),
    {
        RefreshKind { memory: true, cpu: true, processes: true }
    }

    /// The same choice with memory added.
    pub fn with_memory(self) -> (r: RefreshKind)
        ensures
            r.spec_memory(),
            r.spec_cpu() == self.spec_cpu(),
            r.spec_processes() == self.spec_processes(),
    {
        RefreshKind { memory: true, cpu: self.cpu, processes: self.processes }
    }

    /// The same choice with memory left out.
    pub fn without_memory(self) -> (r: RefreshKind)
        ensures
            !r.spec_memory(),
            r.spec_cpu() == self.spec_cpu(),
            r.spec_processes() == self.spec_processes(),
    {
        RefreshKind { memory: false, cpu: self.cpu, processes: self.processes }
    }

    /// The same choice with the processors added.
    pub fn with_cpu(self) -> (r: RefreshKind)
        ensures
            r.spec_cpu(),
            r.spec_memory() == self.spec_memory(),
            r.spec_processes() == self.spec_processes(),
    {
        RefreshKind { memory: self.memory, cpu: true, processes: self.processes }
    }

    /// The same choice with the processors left out.
    pub fn without_cpu(self) -> (r: RefreshKind)
        ensures
            !r.spec_cpu(),
            r.spec_memory() == self.spec_memory(),
            r.spec_processes() == self.spec_processes(),
    {
        RefreshKind { memory: self.memory, cpu: false, processes: self.processes }
    }

    /// The same choice with the processes added.
    pub fn with_processes(self) -> (r: RefreshKind)
        ensures
            r.spec_processes(),
            r.spec_memory() == self.spec_memory(),
            r.spec_cpu() == self.spec_cpu(),
    {
        RefreshKind { memory: self.memory, cpu: self.cpu, processes: true }
    }

    /// The same choice with the processes left out.
    pub fn without_processes(self) -> (r: RefreshKind)
        ensures
            !r.spec_processes(),
            r.spec_memory() == self.spec_memory(),
            r.spec_cpu() == self.spec_cpu(),
    {
        RefreshKind { memory: self.memory, cpu: self.cpu, processes: false }
    }

    #[verifier::when_used_as_spec(spec_memory)]
    pub fn memory(&self) -> (r: bool)
        ensures
            r == self.spec_memory(),
    {
        self.memory
    }

    #[verifier::when_used_as_spec(spec_cpu)]
    pub fn cpu(&self) -> (r: bool)
        ensures
            r == self.spec_cpu(),
    {
        self.cpu
    }

    #[verifier::when_used_as_spec(spec_processes)]
    pub fn processes(&self) -> (r: bool)
        ensures
            r == self.spec_processes(),
    {
        self.processes
    }
}

} // verus!
