//! One isolated execution: what the child does with its run, and how the
//! parent classifies the way the child ended.

use vstd::prelude::*;
use crate::run::BenchmarkRun;

verus! {

/// Why an isolated execution gave no result.
#[derive(Debug, Clone, Copy, PartialEq, Eq, Structural)]
pub enum ExecutionFailure {
    /// The operating system refused to create the child process.
    Spawn,
    /// The child crashed, was killed, or exited with a non-zero status.
    Workload,
    /// The child ended normally but what it sent could not be decoded.
    Transport,
}

impl ExecutionFailure {
    /// Whether the failure ends the whole suite, rather than one variant.
    pub open spec fn fatal(self) -> bool {
        self == ExecutionFailure::Spawn
    }

    /// Whether the failure ends the whole suite, rather than one variant.
    pub fn is_fatal(&self) -> (f: bool)
        ensures
            f == self.fatal(),
    {
        match self {
            ExecutionFailure::Spawn => true,
            _ => false,
        }
    }
}

/// How the attempt to run a child process ended, as the parent saw it.
#[derive(Debug, Clone, Copy, PartialEq, Eq, Structural)]
pub enum ChildStatus {
    /// No child was created.
    NotSpawned,
    /// The child exited with this status.
    Exited(i32),
    /// The child was ended by this signal.
    Signaled(i32),
    /// The child was created, but how it ended could not be learnt.
    Lost,
}

/// The result of an isolated execution, given how the child ended and the
/// value decoded from what it sent, if any could be decoded.
pub open spec fn outcome_of<T>(status: ChildStatus, payload: Option<T>) -> Result<T, ExecutionFailure> {
    match status {
        ChildStatus::NotSpawned => Err(ExecutionFailure::Spawn),
        ChildStatus::Exited(code) => if code != 0 {
            Err(ExecutionFailure::Workload)
        } else {
            match payload {
                Some(value) => Ok(value),
                None => Err(ExecutionFailure::Transport),
            }
        },
        ChildStatus::Signaled(_) => Err(ExecutionFailure::Workload),
        ChildStatus::Lost => Err(ExecutionFailure::Workload),
    }
}

/// Classifies one isolated execution: the child's value where it exited
/// with status zero and its payload decoded, a failure otherwise.
pub fn classify<T>(status: ChildStatus, payload: Option<T>) -> (outcome: Result<T, ExecutionFailure>)
    ensures
        outcome == outcome_of(status, payload),
{
    match status {
        ChildStatus::NotSpawned => Err(ExecutionFailure::Spawn),
        ChildStatus::Signaled(_) => Err(ExecutionFailure::Workload),
        ChildStatus::Lost => Err(ExecutionFailure::Workload),
        ChildStatus::Exited(code) => {
            if code != 0 {
                Err(ExecutionFailure::Workload)
            } else {
                match payload {
                    Some(value) => Ok(value),
                    None => Err(ExecutionFailure::Transport),
                }
            }
        },
    }
}

/// The child's side of one isolated execution: runs `setup_func`, then
/// `func` on `run`, on what the setup made and on `param`, and at last
/// takes the peak memory from `stop_monitoring_memory` into the run.
///
/// The memory monitor is to be started before the call, so that the setup
/// counts toward the peak; the time of the run is what `func` records.
pub fn execute<F, SF, T, ST, P, M>(
    run: BenchmarkRun,
    param: &P,
    setup_func: &SF,
    func: &F,
    stop_monitoring_memory: M,
) -> (done: BenchmarkRun)
    where SF: Fn() -> ST, F: Fn(&mut BenchmarkRun, ST, &P) -> T, M: FnOnce() -> Option<usize>
    requires
        setup_func.requires(()),
        forall|r: &mut BenchmarkRun, made: ST|
            *r == run && setup_func.ensures((), made) ==> #[trigger] func.requires((r, made, param)),
        stop_monitoring_memory.requires(()),
    ensures
        exists|r: &mut BenchmarkRun, made: ST, out: T|
            *r == run && setup_func.ensures((), made) && #[trigger] func.ensures((r, made, param), out)
                && stop_monitoring_memory.ensures((), done.memory_usage_bytes)
                && done == (BenchmarkRun { memory_usage_bytes: done.memory_usage_bytes, ..*final(r) }),
{
    let mut run = run;
    let setup_param = setup_func();
    func(&mut run, setup_param, param);
    run.memory_usage_bytes = stop_monitoring_memory();
    run
}

} // verus!
