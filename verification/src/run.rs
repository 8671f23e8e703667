//! The record of one run, through which a workload times itself and logs
//! counters.

use vstd::prelude::*;
use std::time::Instant;
use crate::clock::elapsed_since;
use crate::elapsed::Elapsed;
use crate::metrics::Metrics;

verus! {

/// What a run holds, as mathematical values.
pub struct RunView {
    pub name: Seq<char>,
    pub param: Seq<char>,
    /// The recorded time in nanoseconds.
    pub time: nat,
    pub memory_usage_bytes: Option<usize>,
    pub metrics: Map<Seq<char>, usize>,
}

impl RunView {
    /// The run of a variant before its workload has started: no time, no
    /// memory measurement, no metrics.
    pub open spec fn fresh(name: Seq<char>, param: Seq<char>) -> RunView {
        RunView {
            name,
            param,
            time: 0,
            memory_usage_bytes: None,
            metrics: Map::empty(),
        }
    }

    /// The run with the metric `metric` set to `value`.
    pub open spec fn logged(self, metric: Seq<char>, value: usize) -> RunView {
        RunView { metrics: self.metrics.insert(metric, value), ..self }
    }

    /// The run with `time` nanoseconds as its time.
    pub open spec fn timed(self, time: nat) -> RunView {
        RunView { time, ..self }
    }
}

/// The record of one isolated execution of one variant. The workload times
/// itself and logs counters through it.
#[derive(Debug)]
pub struct BenchmarkRun {
    /// The name the variant was registered with.
    pub name: String,
    /// The label of the sweep parameter, empty outside a sweep.
    pub param: String,
    /// The time that the workload recorded last.
    pub time: Elapsed,
    /// The peak memory of the execution, once the sampler has reported it.
    pub memory_usage_bytes: Option<usize>,
    /// The counters that the workload logged.
    pub metrics: Metrics,
}

impl View for BenchmarkRun {
    type V = RunView;

    open spec fn view(&self) -> RunView {
        RunView {
            name: self.name@,
            param: self.param@,
            time: self.time@,
            memory_usage_bytes: self.memory_usage_bytes,
            metrics: self.metrics@,
        }
    }
}

impl BenchmarkRun {
    /// A fresh run of the variant `name` with the parameter label `param`.
    pub fn new(name: String, param: String) -> (run: BenchmarkRun)
        ensures
            run@ == RunView::fresh(name@, param@),
    {
        BenchmarkRun {
            name,
            param,
            time: Elapsed::zero(),
            memory_usage_bytes: None,
            metrics: Metrics::new(),
        }
    }

    /// Runs `func` once and records how long it took, in place of any time
    /// recorded before. What `func` returns is handed back.
    pub fn run<F, R>(&mut self, func: F) -> (out: R)
        where F: FnOnce() -> R
        requires
            func.requires(()),
        ensures
            func.ensures((), out),
            final(self)@ == old(self)@.timed(final(self)@.time),
    {
        let start_time = Instant::now();
        let out = func();
        self.set_time(elapsed_since(&start_time));
        out
    }

    /// Records `elapsed` as the time of the run, in place of any time
    /// recorded before.
    pub fn set_time(&mut self, elapsed: Elapsed)
        ensures
            final(self)@ == old(self)@.timed(elapsed@),
    {
        self.time = elapsed;
    }

    /// Sets the metric `metric` to `value`, in place of any value it had.
    pub fn log(&mut self, metric: &str, value: usize)
        ensures
            final(self)@ == old(self)@.logged(metric@, value),
    {
        self.metrics.insert(metric.to_owned(), value);
    }
}

/// Logging a metric twice leaves one entry for it, with the value logged
/// last, and everything else as it was: the run is the same as if only
/// the second value had been logged. On a fresh run that entry is the only
/// one.
pub proof fn lemma_log_twice(run: RunView, metric: Seq<char>, first: usize, second: usize)
    ensures
        run.logged(metric, first).logged(metric, second) == run.logged(metric, second),
        run.logged(metric, first).logged(metric, second).metrics[metric] == second,
        run.logged(metric, first).logged(metric, second).metrics.dom() == run.metrics.dom().insert(metric),
        RunView::fresh(run.name, run.param).logged(metric, first).logged(metric, second).metrics
            == Map::<Seq<char>, usize>::empty().insert(metric, second),
{
    assert(run.metrics.insert(metric, first).insert(metric, second) =~= run.metrics.insert(metric, second));
    assert(run.metrics.insert(metric, second).dom() =~= run.metrics.dom().insert(metric));
    assert(Map::<Seq<char>, usize>::empty().insert(metric, first).insert(metric, second)
        =~= Map::<Seq<char>, usize>::empty().insert(metric, second));
}

} // verus!
