//! Writing runs, results and reports as documents and reading them back.

use vstd::prelude::*;
use crate::elapsed::{Elapsed, NANOS_PER_SEC};
use crate::isolation::ExecutionFailure;
use crate::json::{field, fields_view, items_view, lemma_array_view, lemma_object_view, Json, JsonView};
use crate::metrics::{entries_view, Metrics};
use crate::pairs::{distinct_keys, lemma_pairs_map_keys, lemma_pairs_map_value, lookup, pairs_map};
use crate::result::{BenchmarkResult, Timing};
use crate::run::BenchmarkRun;
use crate::schema::{
    counter_of,
    counters,
    elapsed_document,
    elapsed_of,
    entries_of,
    entry_of,
    failure_of,
    failure_word,
    is_entry_document,
    is_metrics_document,
    is_report_document,
    is_result_document,
    is_run_document,
    is_timing_document,
    lemma_entry_round_trip,
    lemma_report_round_trip,
    lemma_result_round_trip,
    lemma_run_recordable,
    lemma_run_round_trip,
    lemma_timing_round_trip,
    memory_document,
    memory_of,
    metrics_of,
    number_of,
    recordable,
    report_of,
    result_of,
    run_of,
    text_of,
    timing_of,
    timing_recordable,
    ReportView,
};
use crate::suite::slots_view;

verus! {

/// The fields of `doc`, if it is an object.
fn fields_of(doc: &Json) -> (fields: Option<&Vec<(String, Json)>>)
    ensures
        match fields {
            Some(fields) => doc@ == JsonView::Object(fields_view(fields@)),
            None => !(doc@ is Object),
        },
{
    match doc {
        Json::Object(fields) => {
            proof {
                lemma_object_view(*fields);
            }
            Some(fields)
        },
        _ => None,
    }
}

/// The text under `name` among `fields`, if there is one.
fn text_field(fields: &Vec<(String, Json)>, name: &str) -> (text: Option<String>)
    ensures
        match text {
            Some(text) => text_of(lookup(fields_view(fields@), name@)) == Some(text@),
            None => text_of(lookup(fields_view(fields@), name@)) is None,
        },
{
    match field(fields, name) {
        Some(Json::Text(text)) => Some(text.clone()),
        _ => None,
    }
}

/// The number under `name` among `fields`, if there is one.
fn number_field(fields: &Vec<(String, Json)>, name: &str) -> (number: Option<u64>)
    ensures
        number == number_of(lookup(fields_view(fields@), name@)),
{
    match field(fields, name) {
        Some(Json::Number(n)) => Some(*n),
        _ => None,
    }
}

impl Elapsed {
    /// The document of the span.
    pub fn to_document(&self) -> (doc: Json)
        ensures
            doc@ == elapsed_document(self@),
            recordable(self@),
    {
        let mut fields: Vec<(String, Json)> = Vec::new();
        fields.push(("secs".to_owned(), Json::Number(self.secs())));
        fields.push(("nanos".to_owned(), Json::Number(self.subsec_nanos() as u64)));
        proof {
            lemma_object_view(fields);
            assert(fields_view(fields@) =~= elapsed_document(self@)->Object_0);
        }
        Json::Object(fields)
    }

    /// The span that `doc` holds, if it holds one.
    pub fn from_document(doc: &Json) -> (span: Option<Elapsed>)
        ensures
            match span {
                Some(span) => elapsed_of(Some(doc@)) == Some(span@),
                None => elapsed_of(Some(doc@)) is None,
            },
    {
        let fields = fields_of(doc)?;
        let secs = number_field(fields, "secs")?;
        let nanos = number_field(fields, "nanos")?;
        if nanos < NANOS_PER_SEC as u64 {
            Elapsed::new(secs, nanos as u32)
        } else {
            None
        }
    }
}

/// The document of a memory measurement.
pub fn memory_to_document(memory: Option<usize>) -> (doc: Json)
    ensures
        doc@ == memory_document(memory),
{
    match memory {
        Some(bytes) => Json::Number(bytes as u64),
        None => Json::Null,
    }
}

/// The memory measurement that `doc` holds, if it holds one.
pub fn memory_from_document(doc: &Json) -> (memory: Option<Option<usize>>)
    ensures
        memory == memory_of(Some(doc@)),
{
    match doc {
        Json::Null => Some(None),
        Json::Number(n) => {
            if *n <= usize::MAX as u64 {
                Some(Some(*n as usize))
            } else {
                None
            }
        },
        _ => None,
    }
}

/// The counter that `doc` holds, if it holds one.
fn counter_from_document(doc: &Json) -> (counter: Option<usize>)
    ensures
        counter == counter_of(doc@),
{
    match doc {
        Json::Number(n) => {
            if *n <= usize::MAX as u64 {
                Some(*n as usize)
            } else {
                None
            }
        },
        _ => None,
    }
}

impl Metrics {
    /// A document of the metrics, which holds them.
    pub fn to_document(&self) -> (doc: Json)
        ensures
            is_metrics_document(doc@, self@),
    {
        let entries = self.entries();
        let mut fields: Vec<(String, Json)> = Vec::new();
        let mut i: usize = 0;
        while i < entries.len()
            invariant
                i <= entries@.len(),
                fields@.len() == i,
                forall|j: int|
                    0 <= j < i ==> (#[trigger] fields_view(fields@)[j]) == (
                        entries_view(entries@)[j].0,
                        JsonView::Number(entries_view(entries@)[j].1 as u64),
                    ),
            decreases entries@.len() - i,
        {
            let ghost before = fields_view(fields@);
            fields.push((entries[i].0.clone(), Json::Number(entries[i].1 as u64)));
            proof {
                assert(fields_view(fields@) =~= before.push(
                    (entries_view(entries@)[i as int].0, JsonView::Number(entries_view(entries@)[i as int].1 as u64)),
                ));
            }
            i += 1;
        }
        proof {
            lemma_object_view(fields);
            let held = fields_view(fields@);
            let listed = entries_view(entries@);
            assert(distinct_keys(held)) by {
                assert forall|a: int, b: int| 0 <= a < b < held.len() implies held[a].0 != held[b].0 by {
                    assert(listed[a].0 != listed[b].0);
                }
            }
            assert forall|j: int| 0 <= j < held.len() implies self@.contains_key((#[trigger] held[j]).0)
                && held[j].1 == JsonView::Number(self@[held[j].0] as u64) by {
                lemma_pairs_map_value(listed, j);
            }
            assert forall|name: Seq<char>| self@.contains_key(name) implies exists|j: int|
                0 <= j < held.len() && (#[trigger] held[j]).0 == name by {
                lemma_pairs_map_keys(listed, name);
                let j = choose|j: int| 0 <= j < listed.len() && (#[trigger] listed[j]).0 == name;
                assert(held[j].0 == name);
            }
        }
        Json::Object(fields)
    }

    /// The metrics that `doc` holds, if it holds metrics.
    pub fn from_document(doc: &Json) -> (metrics: Option<Metrics>)
        ensures
            match metrics {
                Some(metrics) => metrics_of(Some(doc@)) == Some(metrics@),
                None => metrics_of(Some(doc@)) is None,
            },
    {
        let fields = fields_of(doc)?;
        let ghost held = fields_view(fields@);
        let mut metrics = Metrics::new();
        let mut i: usize = 0;
        while i < fields.len()
            invariant
                i <= fields@.len(),
                held == fields_view(fields@),
                doc@ == JsonView::Object(held),
                forall|j: int| 0 <= j < i ==> counter_of((#[trigger] held[j]).1) is Some,
                metrics@ == pairs_map(counters(held.take(i as int))),
            decreases fields@.len() - i,
        {
            assert(held[i as int].1 == fields@[i as int].1@);
            let value = counter_from_document(&fields[i].1)?;
            metrics.insert(fields[i].0.clone(), value);
            proof {
                let next = counters(held.take(i + 1));
                assert(next.drop_last() =~= counters(held.take(i as int)));
                assert(next.last() == (held[i as int].0, value));
            }
            i += 1;
        }
        proof {
            assert(held.take(i as int) =~= held);
        }
        Some(metrics)
    }
}

impl BenchmarkRun {
    /// A document of the run, which holds the run.
    pub fn to_document(&self) -> (doc: Json)
        ensures
            is_run_document(doc@, self@),
            run_of(Some(doc@)) == Some(self@),
    {
        let mut fields: Vec<(String, Json)> = Vec::new();
        fields.push(("name".to_owned(), Json::Text(self.name.clone())));
        fields.push(("param".to_owned(), Json::Text(self.param.clone())));
        fields.push(("time".to_owned(), self.time.to_document()));
        fields.push(("memory_usage_bytes".to_owned(), memory_to_document(self.memory_usage_bytes)));
        fields.push(("metrics".to_owned(), self.metrics.to_document()));
        proof {
            lemma_object_view(fields);
            lemma_run_round_trip(JsonView::Object(fields_view(fields@)), self@);
        }
        Json::Object(fields)
    }

    /// The run that `doc` holds, if it holds one.
    pub fn from_document(doc: &Json) -> (run: Option<BenchmarkRun>)
        ensures
            match run {
                Some(run) => run_of(Some(doc@)) == Some(run@),
                None => run_of(Some(doc@)) is None,
            },
    {
        let fields = fields_of(doc)?;
        let name = text_field(fields, "name")?;
        let param = text_field(fields, "param")?;
        let time = Elapsed::from_document(field(fields, "time")?)?;
        let memory_usage_bytes = memory_from_document(field(fields, "memory_usage_bytes")?)?;
        let metrics = Metrics::from_document(field(fields, "metrics")?)?;
        Some(BenchmarkRun { name, param, time, memory_usage_bytes, metrics })
    }
}

impl ExecutionFailure {
    /// The word that stands for the failure in a document.
    pub fn word(&self) -> (word: &'static str)
        ensures
            word@ == failure_word(*self),
    {
        match self {
            ExecutionFailure::Spawn => "spawn",
            ExecutionFailure::Workload => "workload",
            ExecutionFailure::Transport => "transport",
        }
    }

    /// The failure that `word` stands for, if it stands for one.
    pub fn from_word(word: &String) -> (failure: Option<ExecutionFailure>)
        ensures
            failure == failure_of(Some(JsonView::Text(word@))),
    {
        if *word == "spawn".to_owned() {
            Some(ExecutionFailure::Spawn)
        } else if *word == "workload".to_owned() {
            Some(ExecutionFailure::Workload)
        } else if *word == "transport".to_owned() {
            Some(ExecutionFailure::Transport)
        } else {
            None
        }
    }
}

impl BenchmarkResult {
    /// A document of the result, which holds the result.
    pub fn to_document(&self) -> (doc: Json)
        ensures
            is_result_document(doc@, self@),
            result_of(Some(doc@)) == Some(self@),
    {
        let mut fields: Vec<(String, Json)> = Vec::new();
        fields.push(("name".to_owned(), Json::Text(self.name.clone())));
        fields.push(("run".to_owned(), self.run.to_document()));
        proof {
            lemma_object_view(fields);
            lemma_run_recordable(fields_view(fields@)[1].1, self.run@);
            lemma_result_round_trip(JsonView::Object(fields_view(fields@)), self@);
        }
        Json::Object(fields)
    }

    /// The result that `doc` holds, if it holds one.
    pub fn from_document(doc: &Json) -> (result: Option<BenchmarkResult>)
        ensures
            match result {
                Some(result) => result_of(Some(doc@)) == Some(result@),
                None => result_of(Some(doc@)) is None,
            },
    {
        let fields = fields_of(doc)?;
        let name = text_field(fields, "name")?;
        let run = BenchmarkRun::from_document(field(fields, "run")?)?;
        Some(BenchmarkResult { name, run })
    }
}

impl Timing {
    /// A document of what the variant left, which holds just that.
    pub fn to_document(&self) -> (doc: Json)
        ensures
            is_timing_document(doc@, self@),
            timing_of(Some(doc@)) == Some(self@),
            timing_recordable(self@),
    {
        match self {
            Timing::Completed(result) => {
                let doc = result.to_document();
                proof {
                    lemma_run_recordable(doc@->Object_0[1].1, result.run@);
                    lemma_timing_round_trip(doc@, self@);
                }
                doc
            },
            Timing::Failed { param, failure } => {
                let mut fields: Vec<(String, Json)> = Vec::new();
                fields.push(("param".to_owned(), Json::Text(param.clone())));
                fields.push(("failure".to_owned(), Json::Text(failure.word().to_owned())));
                proof {
                    lemma_object_view(fields);
                    assert(fields_view(fields@) =~= seq![
                        ("param"@, JsonView::Text(param@)),
                        ("failure"@, JsonView::Text(failure_word(*failure))),
                    ]);
                    lemma_timing_round_trip(JsonView::Object(fields_view(fields@)), self@);
                }
                Json::Object(fields)
            },
        }
    }

    /// What `doc` holds of one variant, if it holds a result or a failure.
    pub fn from_document(doc: &Json) -> (timing: Option<Timing>)
        ensures
            match timing {
                Some(timing) => timing_of(Some(doc@)) == Some(timing@),
                None => timing_of(Some(doc@)) is None,
            },
    {
        let fields = fields_of(doc)?;
        match field(fields, "failure") {
            Some(held) => {
                let failure = match held {
                    Json::Text(word) => ExecutionFailure::from_word(word)?,
                    _ => {
                        return None;
                    },
                };
                let param = text_field(fields, "param")?;
                Some(Timing::Failed { param, failure })
            },
            None => Some(Timing::Completed(BenchmarkResult::from_document(doc)?)),
        }
    }
}

/// A document of the entry of the variant `name` that left `timing`, which
/// holds the entry.
pub fn entry_to_document(name: &String, timing: &Timing) -> (doc: Json)
    ensures
        is_entry_document(doc@, (name@, timing@)),
        entry_of(doc@) == Some((name@, timing@)),
        timing_recordable(timing@),
{
    let mut items: Vec<Json> = Vec::new();
    items.push(Json::Text(name.clone()));
    items.push(timing.to_document());
    proof {
        lemma_array_view(items);
        lemma_entry_round_trip(JsonView::Array(items_view(items@)), (name@, timing@));
    }
    Json::Array(items)
}

/// The entry that `doc` holds, if it holds one.
pub fn entry_from_document(doc: &Json) -> (entry: Option<(String, Timing)>)
    ensures
        match entry {
            Some(entry) => entry_of(doc@) == Some((entry.0@, entry.1@)),
            None => entry_of(doc@) is None,
        },
{
    let items = match doc {
        Json::Array(items) => items,
        _ => {
            return None;
        },
    };
    proof {
        lemma_array_view(*items);
    }
    if items.len() != 2 {
        return None;
    }
    let name = match &items[0] {
        Json::Text(text) => text.clone(),
        _ => {
            return None;
        },
    };
    let timing = Timing::from_document(&items[1])?;
    Some((name, timing))
}

/// A document of the report of the suite `name` with the entries
/// `timings`, which holds the report.
pub fn report_to_document(name: &str, timings: &Vec<(String, Timing)>) -> (doc: Json)
    ensures
        is_report_document(doc@, ReportView { name: name@, timings: slots_view(timings@) }),
        report_of(Some(doc@)) == Some(ReportView { name: name@, timings: slots_view(timings@) }),
{
    let ghost report = ReportView { name: name@, timings: slots_view(timings@) };
    let mut items: Vec<Json> = Vec::new();
    let mut i: usize = 0;
    while i < timings.len()
        invariant
            i <= timings@.len(),
            items@.len() == i,
            report.timings == slots_view(timings@),
            forall|j: int| 0 <= j < i ==> is_entry_document(#[trigger] items_view(items@)[j], report.timings[j]),
            forall|j: int| 0 <= j < i ==> timing_recordable((#[trigger] report.timings[j]).1),
        decreases timings@.len() - i,
    {
        let ghost before = items_view(items@);
        let item = entry_to_document(&timings[i].0, &timings[i].1);
        items.push(item);
        proof {
            assert(items_view(items@) =~= before.push(item@));
        }
        i += 1;
    }
    proof {
        lemma_array_view(items);
    }
    let mut fields: Vec<(String, Json)> = Vec::new();
    fields.push(("name".to_owned(), Json::Text(name.to_owned())));
    fields.push(("timings".to_owned(), Json::Array(items)));
    proof {
        lemma_object_view(fields);
        lemma_report_round_trip(JsonView::Object(fields_view(fields@)), report);
    }
    Json::Object(fields)
}

/// A report as it is read back from a document: the name of a suite and
/// its entries in order.
#[derive(Debug)]
pub struct Report {
    pub name: String,
    pub timings: Vec<(String, Timing)>,
}

impl View for Report {
    type V = ReportView;

    open spec fn view(&self) -> ReportView {
        ReportView { name: self.name@, timings: slots_view(self.timings@) }
    }
}

impl Report {
    /// A document of the report, which holds the report.
    pub fn to_document(&self) -> (doc: Json)
        ensures
            is_report_document(doc@, self@),
            report_of(Some(doc@)) == Some(self@),
    {
        report_to_document(self.name.as_str(), &self.timings)
    }

    /// The report that `doc` holds, if it holds one.
    pub fn from_document(doc: &Json) -> (report: Option<Report>)
        ensures
            match report {
                Some(report) => report_of(Some(doc@)) == Some(report@),
                None => report_of(Some(doc@)) is None,
            },
    {
        let fields = fields_of(doc)?;
        let name = text_field(fields, "name")?;
        let items = match field(fields, "timings") {
            Some(Json::Array(items)) => items,
            _ => {
                return None;
            },
        };
        proof {
            lemma_array_view(*items);
        }
        let ghost held = items_view(items@);
        let mut timings: Vec<(String, Timing)> = Vec::new();
        let mut i: usize = 0;
        while i < items.len()
            invariant
                i <= items@.len(),
                held == items_view(items@),
                report_of(Some(doc@)) == match entries_of(held) {
                    Some(timings) => Some(ReportView { name: name@, timings }),
                    None => None,
                },
                timings@.len() == i,
                forall|j: int| 0 <= j < i ==> entry_of(#[trigger] held[j]) == Some(slots_view(timings@)[j]),
            decreases items@.len() - i,
        {
            let ghost before = slots_view(timings@);
            assert(held[i as int] == items@[i as int]@);
            let entry = entry_from_document(&items[i])?;
            timings.push(entry);
            proof {
                assert(slots_view(timings@) =~= before.push((entry.0@, entry.1@)));
            }
            i += 1;
        }
        proof {
            assert(entries_of(held)->0 =~= slots_view(timings@));
        }
        Some(Report { name, timings })
    }
}

} // verus!
