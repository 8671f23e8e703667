//! What one variant leaves in a suite.

use vstd::prelude::*;
use crate::isolation::ExecutionFailure;
use crate::run::{BenchmarkRun, RunView};

verus! {

/// What a result holds, as mathematical values.
pub struct ResultView {
    pub name: Seq<char>,
    pub run: RunView,
}

/// The run of one variant whose isolated execution completed, under the
/// name the variant was registered with.
#[derive(Debug)]
pub struct BenchmarkResult {
    pub name: String,
    pub run: BenchmarkRun,
}

impl View for BenchmarkResult {
    type V = ResultView;

    open spec fn view(&self) -> ResultView {
        ResultView { name: self.name@, run: self.run@ }
    }
}

impl BenchmarkResult {
    /// The result that puts `run` under `name`.
    pub fn new(name: String, run: BenchmarkRun) -> (result: BenchmarkResult)
        ensures
            result.name == name,
            result.run == run,
    {
        BenchmarkResult { name, run }
    }
}

/// What a slot of the suite holds, as mathematical values.
pub enum TimingView {
    Completed(ResultView),
    Failed { param: Seq<char>, failure: ExecutionFailure },
}

/// What one variant left in the suite: its result, or the mark of the
/// failure that kept it from giving one.
#[derive(Debug)]
pub enum Timing {
    /// The isolated execution completed and gave this result.
    Completed(BenchmarkResult),
    /// The isolated execution of the variant with the parameter label
    /// `param` failed in this way.
    Failed { param: String, failure: ExecutionFailure },
}

impl View for Timing {
    type V = TimingView;

    open spec fn view(&self) -> TimingView {
        match *self {
            Timing::Completed(result) => TimingView::Completed(result@),
            Timing::Failed { param, failure } => TimingView::Failed { param: param@, failure },
        }
    }
}

} // verus!
