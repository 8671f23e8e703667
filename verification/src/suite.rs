//! The suite: it runs variants one after another and keeps what they left
//! in the order of the calls.

use vstd::prelude::*;
use vstd::string::StringExecFns;
use crate::config::{quick_flag, sweep_len, BenchmarkConfig};
use crate::emit::{emission, steps_view, Emit};
use crate::isolation::ExecutionFailure;
use crate::json::Json;
use crate::report::report_to_document;
use crate::result::{BenchmarkResult, ResultView, Timing, TimingView};
use crate::run::{BenchmarkRun, RunView};
use crate::schema::{is_report_document, report_of, ReportView};

verus! {

/// One entry of a suite's results: the variant's name and what it left.
pub type SlotView = (Seq<char>, TimingView);

/// What a suite holds, as mathematical values.
pub struct SuiteView {
    pub name: Seq<char>,
    pub quick: bool,
    pub output_dir: Option<Seq<char>>,
    pub timings: Seq<SlotView>,
}

impl SuiteView {
    /// The suite with the entries `added` behind those it has.
    pub open spec fn extended_by(self, added: Seq<SlotView>) -> SuiteView {
        SuiteView { timings: self.timings + added, ..self }
    }
}

/// The entry that the outcome of one isolated run leaves in the suite: the
/// run under the variant's name where there is one, else the failure with
/// the parameter label it belongs to.
pub open spec fn slot_of(
    name: Seq<char>,
    label: Seq<char>,
    outcome: Result<BenchmarkRun, ExecutionFailure>,
) -> SlotView {
    (
        name,
        match outcome {
            Ok(run) => TimingView::Completed(ResultView { name, run: run@ }),
            Err(failure) => TimingView::Failed { param: label, failure },
        },
    )
}

/// Whether `isolated` can give `outcome` when it is handed a fresh run of
/// the variant `name` with the label `label`, and `param`.
pub open spec fn isolated_gives<P, I: Fn(BenchmarkRun, &P) -> Result<BenchmarkRun, ExecutionFailure>>(
    isolated: I,
    name: Seq<char>,
    label: Seq<char>,
    param: &P,
    outcome: Result<BenchmarkRun, ExecutionFailure>,
) -> bool {
    exists|fresh: BenchmarkRun|
        fresh@ == RunView::fresh(name, label) && #[trigger] isolated.ensures((fresh, param), outcome)
}

/// Whether `slot` is what some outcome of `isolated`, other than a fatal
/// one, leaves in the suite for the variant `name` with `label` and `param`.
pub open spec fn slot_recorded<P, I: Fn(BenchmarkRun, &P) -> Result<BenchmarkRun, ExecutionFailure>>(
    isolated: I,
    name: Seq<char>,
    label: Seq<char>,
    param: &P,
    slot: SlotView,
) -> bool {
    exists|outcome: Result<BenchmarkRun, ExecutionFailure>|
        #[trigger] isolated_gives(isolated, name, label, param, outcome)
            && !(outcome is Err && outcome->Err_0.fatal())
            && slot == slot_of(name, label, outcome)
}

/// Whether `added` is what a sweep of the variant `name` through
/// `isolated` leaves in the suite: one entry for each of the first
/// parameters of `params`, in their order.
pub open spec fn sweep_recorded<P, I: Fn(BenchmarkRun, &P) -> Result<BenchmarkRun, ExecutionFailure>>(
    isolated: I,
    name: Seq<char>,
    params: Seq<(&str, P)>,
    added: Seq<SlotView>,
) -> bool {
    &&& added.len() <= params.len()
    &&& forall|i: int|
        0 <= i < added.len() ==> slot_recorded(isolated, name, params[i].0@, &params[i].1, #[trigger] added[i])
}

/// The entries of a list of slots, as mathematical values.
pub open spec fn slots_view(slots: Seq<(String, Timing)>) -> Seq<SlotView> {
    slots.map_values(|slot: (String, Timing)| (slot.0@, slot.1@))
}

/// A named suite of benchmarks and what its variants left, in the order
/// in which they were registered.
#[derive(Debug)]
pub struct Benchmark<'a> {
    name: &'a str,
    config: BenchmarkConfig,
    timings: Vec<(String, Timing)>,
}

impl<'a> View for Benchmark<'a> {
    type V = SuiteView;

    closed spec fn view(&self) -> SuiteView {
        SuiteView {
            name: self.name@,
            quick: self.config.quick,
            output_dir: match self.config.output_dir {
                Some(dir) => Some(dir@),
                None => None,
            },
            timings: slots_view(self.timings@),
        }
    }
}

/// Whether every result among `slots` carries the name of its variant,
/// and no failure among them is a fatal one.
pub open spec fn well_kept(slots: Seq<SlotView>) -> bool {
    forall|i: int|
        0 <= i < slots.len() ==> match (#[trigger] slots[i]).1 {
            TimingView::Completed(result) => result.name == slots[i].0,
            TimingView::Failed { failure, .. } => !failure.fatal(),
        }
}

/// The entries of a suite stand in the order of the calls that recorded
/// them: what one call appends stays where it is, and what a later call
/// appends comes behind it, each in the order in which it was appended.
pub proof fn lemma_call_order(suite: SuiteView, first: Seq<SlotView>, second: Seq<SlotView>)
    ensures
        suite.extended_by(first).extended_by(second) == suite.extended_by(first + second),
        suite.extended_by(first).extended_by(second).timings.len() == suite.timings.len() + first.len()
            + second.len(),
        forall|i: int|
            0 <= i < suite.timings.len() ==> suite.extended_by(first).extended_by(second).timings[i]
                == suite.timings[i],
        forall|i: int|
            0 <= i < first.len() ==> suite.extended_by(first).extended_by(second).timings[suite.timings.len() + i]
                == first[i],
        forall|i: int|
            0 <= i < second.len() ==> suite.extended_by(first).extended_by(second).timings[suite.timings.len()
                + first.len() + i] == second[i],
{
    assert(suite.timings + first + second =~= suite.timings + (first + second));
}

impl<'a> Benchmark<'a> {
    #[verifier::type_invariant]
    spec fn well_formed(self) -> bool {
        well_kept(slots_view(self.timings@))
    }

    /// The name of the suite.
    pub fn name(&self) -> (name: &'a str)
        ensures
            name@ == self@.name,
    {
        self.name
    }

    /// The configuration of the suite.
    pub fn config(&self) -> (config: &BenchmarkConfig)
        ensures
            config.quick == self@.quick,
            match config.output_dir {
                Some(dir) => self@.output_dir == Some(dir@),
                None => self@.output_dir is None,
            },
    {
        &self.config
    }

    /// The results of the suite: one entry for each variant that was
    /// recorded, each result under the name of its variant and no failure
    /// a fatal one.
    pub fn timings(&self) -> (timings: &Vec<(String, Timing)>)
        ensures
            slots_view(timings@) == self@.timings,
            well_kept(self@.timings),
    {
        proof {
            use_type_invariant(self);
        }
        &self.timings
    }

    /// An empty suite with the default configuration.
    pub fn new(name: &'a str) -> (suite: Benchmark<'a>)
        ensures
            suite@ == (SuiteView {
                name: name@,
                quick: false,
                output_dir: None,
                timings: Seq::empty(),
            }),
    {
        let suite = Benchmark { name, config: BenchmarkConfig::default(), timings: Vec::new() };
        proof {
            assert(slots_view(suite.timings@) =~= Seq::empty());
        }
        suite
    }

    /// An empty suite with the configuration `config`.
    pub fn with_config(name: &'a str, config: BenchmarkConfig) -> (suite: Benchmark<'a>)
        ensures
            suite@ == (SuiteView {
                name: name@,
                quick: config.quick,
                output_dir: match config.output_dir {
                    Some(dir) => Some(dir@),
                    None => None,
                },
                timings: Seq::empty(),
            }),
    {
        let suite = Benchmark { name, config, timings: Vec::new() };
        proof {
            assert(slots_view(suite.timings@) =~= Seq::empty());
        }
        suite
    }

    /// An empty suite with the configuration that the process-wide
    /// settings give: `quick` is the setting of the quick flag and
    /// `output_dir` that of the output location, each `None` where it is
    /// not set.
    pub fn from_env(name: &'a str, quick: Option<String>, output_dir: Option<String>) -> (suite: Benchmark<'a>)
        ensures
            suite@ == (SuiteView {
                name: name@,
                quick: quick_flag(quick),
                output_dir: match output_dir {
                    Some(dir) => Some(dir@),
                    None => None,
                },
                timings: Seq::empty(),
            }),
    {
        Benchmark::with_config(name, BenchmarkConfig::from_env(quick, output_dir))
    }

    /// The report of the suite as a document: the suite's name and every
    /// entry in order. Reading the document back gives the same name and
    /// entries.
    pub fn report(&self) -> (doc: Json)
        ensures
            is_report_document(doc@, ReportView { name: self@.name, timings: self@.timings }),
            report_of(Some(doc@)) == Some(ReportView { name: self@.name, timings: self@.timings }),
    {
        report_to_document(self.name, &self.timings)
    }

    /// The steps of emitting the rendered report `report`, in the order
    /// in which they are to be taken: the text is printed, and then, where
    /// an output location is configured, the same text is persisted under
    /// it in the file named after the suite.
    pub fn output(&self, report: String) -> (steps: Vec<Emit>)
        ensures
            steps_view(steps@) == emission(self@, report@),
    {
        let mut steps: Vec<Emit> = Vec::new();
        match &self.config.output_dir {
            Some(dir) => {
                let persist = Emit::Persist {
                    dir: dir.clone(),
                    file_name: self.name.to_owned().concat(".json"),
                    content: report.clone(),
                };
                steps.push(Emit::Print { text: report });
                steps.push(persist);
            },
            None => {
                steps.push(Emit::Print { text: report });
            },
        }
        proof {
            assert(steps_view(steps@) =~= emission(self@, report@));
        }
        steps
    }

    /// Records the outcome of the isolated run of the variant `name` with
    /// the parameter label `label`. A fatal failure is handed back and
    /// leaves the suite as it was; any other outcome is appended.
    pub fn record(
        &mut self,
        name: &str,
        label: &str,
        outcome: Result<BenchmarkRun, ExecutionFailure>,
    ) -> (recorded: Result<(), ExecutionFailure>)
        ensures
            match outcome {
                Err(failure) if failure.fatal() => recorded == Err::<(), ExecutionFailure>(failure)
                    && final(self)@ == old(self)@,
                _ => recorded is Ok && final(self)@ == old(self)@.extended_by(
                    seq![slot_of(name@, label@, outcome)],
                ),
            },
    {
        proof {
            use_type_invariant(&*self);
        }
        let timing = match outcome {
            Ok(run) => Timing::Completed(BenchmarkResult::new(name.to_owned(), run)),
            Err(failure) => {
                if failure.is_fatal() {
                    return Err(failure);
                }
                Timing::Failed { param: label.to_owned(), failure }
            },
        };
        let mut timings: Vec<(String, Timing)> = Vec::new();
        std::mem::swap(&mut timings, &mut self.timings);
        let ghost before = timings@;
        timings.push((name.to_owned(), timing));
        proof {
            assert(slots_view(timings@) =~= slots_view(before) + seq![slot_of(name@, label@, outcome)]);
        }
        self.timings = timings;
        Ok(())
    }

    /// Runs the variant `name` once through `isolated`, on a fresh run with
    /// an empty parameter label, and records what comes back: one entry at
    /// the end of the results, or nothing where the failure is fatal.
    pub fn benchmark<I>(&mut self, name: &'a str, isolated: I) -> (done: Result<(), ExecutionFailure>)
        where I: FnOnce(BenchmarkRun) -> Result<BenchmarkRun, ExecutionFailure>
        requires
            forall|fresh: BenchmarkRun|
                fresh@ == RunView::fresh(name@, Seq::<char>::empty()) ==> #[trigger] isolated.requires((fresh,)),
        ensures
            exists|fresh: BenchmarkRun, outcome: Result<BenchmarkRun, ExecutionFailure>|
                fresh@ == RunView::fresh(name@, Seq::<char>::empty())
                && #[trigger] isolated.ensures((fresh,), outcome)
                && match outcome {
                    Err(failure) if failure.fatal() => done == Err::<(), ExecutionFailure>(failure)
                        && final(self)@ == old(self)@,
                    _ => done is Ok && final(self)@ == old(self)@.extended_by(
                        seq![slot_of(name@, Seq::<char>::empty(), outcome)],
                    ),
                },
    {
        let fresh = BenchmarkRun::new(name.to_owned(), String::new());
        let outcome = isolated(fresh);
        proof {
            reveal_strlit("");
            assert(""@ =~= Seq::<char>::empty());
        }
        self.record(name, "", outcome)
    }

    /// Runs the variant `name` once for each parameter of the sweep, in
    /// the order of `params`, or for the first alone in quick mode. Each
    /// goes through `isolated` on a fresh run that carries the parameter's
    /// label, and leaves one entry at the end of the results. A fatal
    /// failure ends the sweep at once: the entries of the parameters before
    /// it stay, and the failure is handed back.
    pub fn benchmark_with<P, I>(&mut self, name: &'a str, params: &[(&'a str, P)], isolated: I) -> (done: Result<
        (),
        ExecutionFailure,
    >)
        where I: Fn(BenchmarkRun, &P) -> Result<BenchmarkRun, ExecutionFailure>
        requires
            forall|i: int, fresh: BenchmarkRun|
                0 <= i < sweep_len(old(self)@.quick, params@.len()) && fresh@ == RunView::fresh(
                    name@,
                    params@[i].0@,
                ) ==> #[trigger] isolated.requires((fresh, &params@[i].1)),
        ensures
            old(self)@.timings.len() <= final(self)@.timings.len(),
            final(self)@ == old(self)@.extended_by(final(self)@.timings.skip(old(self)@.timings.len() as int)),
            sweep_recorded(
                isolated,
                name@,
                params@,
                final(self)@.timings.skip(old(self)@.timings.len() as int),
            ),
            match done {
                Ok(_) => final(self)@.timings.len() == old(self)@.timings.len() + sweep_len(
                    old(self)@.quick,
                    params@.len(),
                ),
                Err(failure) => {
                    let at = final(self)@.timings.len() - old(self)@.timings.len();
                    &&& failure.fatal()
                    &&& at < sweep_len(old(self)@.quick, params@.len())
                    &&& isolated_gives(isolated, name@, params@[at].0@, &params@[at].1, Err(failure))
                },
            },
    {
        let ghost before = self@;
        let count = self.config.sweep_len(params.len());
        let mut i: usize = 0;
        proof {
            assert(before.timings.skip(before.timings.len() as int) =~= Seq::empty());
            assert(before.timings + Seq::empty() =~= before.timings);
        }
        while i < count
            invariant
                before == old(self)@,
                i <= count,
                count == sweep_len(before.quick, params@.len()),
                count <= params@.len(),
                self@.timings.len() == before.timings.len() + i,
                self@ == before.extended_by(self@.timings.skip(before.timings.len() as int)),
                sweep_recorded(isolated, name@, params@, self@.timings.skip(before.timings.len() as int)),
                forall|j: int, fresh: BenchmarkRun|
                    0 <= j < count && fresh@ == RunView::fresh(name@, params@[j].0@)
                        ==> #[trigger] isolated.requires((fresh, &params@[j].1)),
            decreases count - i,
        {
            let label = params[i].0;
            let fresh = BenchmarkRun::new(name.to_owned(), label.to_owned());
            let outcome = isolated(fresh, &params[i].1);
            proof {
                assert(isolated_gives(isolated, name@, label@, &params@[i as int].1, outcome));
            }
            let ghost so_far = self@.timings.skip(before.timings.len() as int);
            match self.record(name, label, outcome) {
                Ok(_) => {},
                Err(failure) => {
                    return Err(failure);
                },
            }
            proof {
                let slot = slot_of(name@, label@, outcome);
                let added = self@.timings.skip(before.timings.len() as int);
                assert(added =~= so_far.push(slot));
                assert(before.timings + so_far + seq![slot] =~= before.timings + added);
                assert(slot_recorded(isolated, name@, label@, &params@[i as int].1, slot));
                assert forall|j: int| 0 <= j < added.len() implies slot_recorded(
                    isolated,
                    name@,
                    params@[j].0@,
                    &params@[j].1,
                    #[trigger] added[j],
                ) by {
                    if j < i {
                        assert(added[j] == so_far[j]);
                    }
                }
            }
            i += 1;
        }
        Ok(())
    }
}

} // verus!
