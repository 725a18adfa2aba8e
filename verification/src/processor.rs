//! Processors: the aggregate one and one per core, each an independent series
//! of busy-time samples.

use vstd::prelude::*;
use crate::session::CounterKey;
use crate::usage::{lemma_usage_in_range, usage_between, Sample, UsagePercentage, UsageTracker};

verus! {

/// What a processor is, as plain values.
pub struct ProcessorView {
    pub name: Seq<char>,
    pub vendor_id: Seq<char>,
    pub brand: Seq<char>,
    pub frequency: u64,
    /// Usage in basis points.
    pub usage: int,
    /// The counter that feeds this processor, if one was subscribed.
    pub key: Option<CounterKey>,
    /// The sample that the next one is compared with.
    pub baseline: Option<Sample>,
}

impl ProcessorView {
    /// The usage is a valid percentage.
    pub open spec fn wf(self) -> bool {
        0 <= self.usage <= 10_000
    }

    /// The processor after the sample `used_time`, taken at `now`.
    pub open spec fn sampled(self, used_time: u64, now: u64) -> ProcessorView {
        ProcessorView {
            usage: usage_between(self.baseline, Sample { busy: used_time, at: now }, 1),
            baseline: Some(Sample { busy: used_time, at: now }),
            ..self
        }
    }

    /// The processor once it is fed by the counter under `key`.
    pub open spec fn subscribed(self, key: CounterKey) -> ProcessorView {
        ProcessorView { key: Some(key), ..self }
    }
}

/// One logical processor, or the aggregate of all of them.
#[derive(Debug)]
pub struct Processor {
    name: String,
    vendor_id: String,
    brand: String,
    frequency: u64,
    cpu_usage: UsagePercentage,
    key_used: Option<CounterKey>,
    tracker: UsageTracker,
}

impl View for Processor {
    type V = ProcessorView;

    closed spec fn view(&self) -> ProcessorView {
        ProcessorView {
            name: self.name@,
            vendor_id: self.vendor_id@,
            brand: self.brand@,
            frequency: self.frequency,
            usage: self.cpu_usage@,
            key: self.key_used,
            baseline: self.tracker@,
        }
    }
}

impl Processor {
    /// A processor with no usage data and no subscription.
    pub fn new_with_values(name: &str, vendor_id: String, brand: String, frequency: u64) -> (r:
        Processor)
        ensures
            r@ == (ProcessorView {
                name: name@,
                vendor_id: vendor_id@,
                brand: brand@,
                frequency,
                usage: 0,
                key: None,
                baseline: None,
            }),
            r@.wf(),
    {
        Processor {
            name: name.to_owned(),
            vendor_id,
            brand,
            frequency,
            cpu_usage: UsagePercentage::zero(),
            key_used: None,
            tracker: UsageTracker::new(),
        }
    }

    /// Takes the next cumulative busy-time sample of this processor and
    /// recomputes the usage from the sample before it. The first sample yields
    /// zero.
    pub fn set_cpu_usage(&mut self, used_time: u64, now: u64)
        ensures
            final(self)@ == old(self)@.sampled(used_time, now),
            final(self)@.wf(),
            old(self)@.baseline is None ==> final(self)@.usage == 0,
    {
        let usage = self.tracker.observe(used_time, now, 1);
        self.cpu_usage = usage;
    }

    /// Records the counter that feeds this processor.
    pub fn set_key_used(&mut self, key: CounterKey)
        ensures
            final(self)@ == old(self)@.subscribed(key),
    {
        self.key_used = Some(key);
    }

    /// The counter that feeds this processor, if one was subscribed.
    pub fn get_key_used(&self) -> (r: Option<CounterKey>)
        ensures
            r == self@.key,
    {
        self.key_used
    }

    /// The usage computed at the last refresh: between 0 and 100 percent.
    pub fn get_cpu_usage(&self) -> (r: UsagePercentage)
        ensures
            r@ == self@.usage,
            0 <= r@ <= 10_000,
    {
        let usage = self.cpu_usage;
        let _ = usage.basis_points();
        usage
    }

    pub fn get_name(&self) -> (r: &str)
        ensures
            r@ == self@.name,
    {
        self.name.as_str()
    }

    pub fn get_vendor_id(&self) -> (r: &str)
        ensures
            r@ == self@.vendor_id,
    {
        self.vendor_id.as_str()
    }

    pub fn get_brand(&self) -> (r: &str)
        ensures
            r@ == self@.brand,
    {
        self.brand.as_str()
    }

    pub fn get_frequency(&self) -> (r: u64)
        ensures
            r == self@.frequency,
    {
        self.frequency
    }
}

/// The first sample of a processor yields a usage of exactly zero.
pub proof fn lemma_first_sample_of_processor(p: ProcessorView, used_time: u64, now: u64)
    requires
        p.baseline is None,
    ensures
        p.sampled(used_time, now).usage == 0,
{
}

/// Whatever the samples are, the usage of a processor is between 0 and 100
/// percent after each of them.
pub proof fn lemma_sampled_processor_in_range(p: ProcessorView, used_time: u64, now: u64)
    ensures
        p.sampled(used_time, now).wf(),
{
    lemma_usage_in_range(p.baseline, Sample { busy: used_time, at: now }, 1);
}

} // verus!
