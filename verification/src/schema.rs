//! The layout of the documents of runs, results and reports: which
//! document stands for a value, which value a document holds, and that the
//! two agree.

use vstd::prelude::*;
use crate::elapsed::NANOS_PER_SEC;
use crate::isolation::ExecutionFailure;
use crate::json::JsonView;
use crate::pairs::{distinct_keys, lemma_pairs_map_keys, lemma_pairs_map_value, lookup, pairs_map};
use crate::result::{ResultView, TimingView};
use crate::run::RunView;
use crate::suite::SlotView;

verus! {

/// The text that `doc` is, if it is one.
pub open spec fn text_of(doc: Option<JsonView>) -> Option<Seq<char>> {
    match doc {
        Some(JsonView::Text(text)) => Some(text),
        _ => None,
    }
}

/// The number that `doc` is, if it is one.
pub open spec fn number_of(doc: Option<JsonView>) -> Option<u64> {
    match doc {
        Some(JsonView::Number(n)) => Some(n),
        _ => None,
    }
}

/// The document of a time of `time` nanoseconds: its whole seconds under
/// `secs` and the nanoseconds past them under `nanos`.
pub open spec fn elapsed_document(time: nat) -> JsonView {
    JsonView::Object(
        seq![
            ("secs"@, JsonView::Number((time / (NANOS_PER_SEC as nat)) as u64)),
            ("nanos"@, JsonView::Number((time % (NANOS_PER_SEC as nat)) as u64)),
        ],
    )
}

/// The time in nanoseconds that `doc` holds: it is an object whose fields
/// `secs` and `nanos` are numbers, the second below one second.
pub open spec fn elapsed_of(doc: Option<JsonView>) -> Option<nat> {
    match doc {
        Some(JsonView::Object(fields)) => match (
            number_of(lookup(fields, "secs"@)),
            number_of(lookup(fields, "nanos"@)),
        ) {
            (Some(secs), Some(nanos)) => if nanos < NANOS_PER_SEC {
                Some((secs * NANOS_PER_SEC + nanos) as nat)
            } else {
                None
            },
            _ => None,
        },
        _ => None,
    }
}

/// Whether a time of `time` nanoseconds is one that seconds and
/// nanoseconds can hold: every recorded time is.
pub open spec fn recordable(time: nat) -> bool {
    time / (NANOS_PER_SEC as nat) <= u64::MAX
}

/// The names `secs` and `nanos` differ.
proof fn lemma_elapsed_names()
    ensures
        "secs"@ != "nanos"@,
{
    reveal_strlit("secs");
    reveal_strlit("nanos");
    assert("secs"@.len() != "nanos"@.len());
}

/// The document of a time holds that time.
pub proof fn lemma_elapsed_round_trip(time: nat)
    requires
        recordable(time),
    ensures
        elapsed_of(Some(elapsed_document(time))) == Some(time),
{
    let fields = elapsed_document(time)->Object_0;
    lemma_elapsed_names();
    assert(distinct_keys(fields));
    lemma_pairs_map_value(fields, 0);
    lemma_pairs_map_value(fields, 1);
    vstd::arithmetic::div_mod::lemma_fundamental_div_mod(time as int, NANOS_PER_SEC as int);
}

/// The document of a memory measurement: the number of bytes, or null
/// where there is no measurement.
pub open spec fn memory_document(memory: Option<usize>) -> JsonView {
    match memory {
        Some(bytes) => JsonView::Number(bytes as u64),
        None => JsonView::Null,
    }
}

/// The memory measurement that `doc` holds: it is null, or a number that
/// a byte count can hold.
pub open spec fn memory_of(doc: Option<JsonView>) -> Option<Option<usize>> {
    match doc {
        Some(JsonView::Null) => Some(None),
        Some(JsonView::Number(n)) => if n <= usize::MAX {
            Some(Some(n as usize))
        } else {
            None
        },
        _ => None,
    }
}

/// The counter that `doc` holds: it is a number that a counter can hold.
pub open spec fn counter_of(doc: JsonView) -> Option<usize> {
    match doc {
        JsonView::Number(n) => if n <= usize::MAX {
            Some(n as usize)
        } else {
            None
        },
        _ => None,
    }
}

/// The counters that fields hold, each under the field's name.
pub open spec fn counters(fields: Seq<(Seq<char>, JsonView)>) -> Seq<(Seq<char>, usize)> {
    fields.map_values(|field: (Seq<char>, JsonView)| (field.0, counter_of(field.1).unwrap()))
}

/// Whether `doc` is a document of `metrics`: an object with one field for
/// each metric, under the metric's name and holding its value.
pub open spec fn is_metrics_document(doc: JsonView, metrics: Map<Seq<char>, usize>) -> bool {
    &&& doc matches JsonView::Object(fields)
    &&& distinct_keys(fields)
    &&& forall|i: int|
        0 <= i < fields.len() ==> metrics.contains_key((#[trigger] fields[i]).0) && fields[i].1
            == JsonView::Number(metrics[fields[i].0] as u64)
    &&& forall|name: Seq<char>|
        metrics.contains_key(name) ==> exists|i: int| 0 <= i < fields.len() && (#[trigger] fields[i]).0 == name
}

/// The metrics that `doc` holds: it is an object whose fields all hold
/// counters. Where a name occurs twice, the later field counts.
pub open spec fn metrics_of(doc: Option<JsonView>) -> Option<Map<Seq<char>, usize>> {
    match doc {
        Some(JsonView::Object(fields)) => if forall|i: int|
            0 <= i < fields.len() ==> counter_of((#[trigger] fields[i]).1) is Some {
            Some(pairs_map(counters(fields)))
        } else {
            None
        },
        _ => None,
    }
}

/// A document of metrics holds those metrics.
pub proof fn lemma_metrics_round_trip(doc: JsonView, metrics: Map<Seq<char>, usize>)
    requires
        is_metrics_document(doc, metrics),
    ensures
        metrics_of(Some(doc)) == Some(metrics),
{
    let fields = doc->Object_0;
    let held = counters(fields);
    assert forall|i: int| 0 <= i < fields.len() implies counter_of((#[trigger] fields[i]).1) is Some
        && held[i] == (fields[i].0, metrics[fields[i].0]) by {}
    assert(distinct_keys(held));
    assert forall|name: Seq<char>| pairs_map(held).contains_key(name) <==> metrics.contains_key(name) by {
        lemma_pairs_map_keys(held, name);
        if metrics.contains_key(name) {
            let i = choose|i: int| 0 <= i < fields.len() && (#[trigger] fields[i]).0 == name;
            assert(held[i].0 == name);
        }
        if pairs_map(held).contains_key(name) {
            let i = choose|i: int| 0 <= i < held.len() && (#[trigger] held[i]).0 == name;
            assert(fields[i].0 == name);
        }
    }
    assert forall|name: Seq<char>| pairs_map(held).contains_key(name) implies pairs_map(held)[name]
        == metrics[name] by {
        lemma_pairs_map_keys(held, name);
        let i = choose|i: int| 0 <= i < held.len() && (#[trigger] held[i]).0 == name;
        lemma_pairs_map_value(held, i);
    }
    assert(pairs_map(held) =~= metrics);
}

/// Whether `doc` is a document of `run`: an object with the fields
/// `name`, `param`, `time`, `memory_usage_bytes` and `metrics`, in this
/// order, each the document of what the run holds under that name.
pub open spec fn is_run_document(doc: JsonView, run: RunView) -> bool {
    &&& doc matches JsonView::Object(fields)
    &&& fields.len() == 5
    &&& fields[0] == ("name"@, JsonView::Text(run.name))
    &&& fields[1] == ("param"@, JsonView::Text(run.param))
    &&& fields[2] == ("time"@, elapsed_document(run.time))
    &&& fields[3] == ("memory_usage_bytes"@, memory_document(run.memory_usage_bytes))
    &&& fields[4].0 == "metrics"@
    &&& is_metrics_document(fields[4].1, run.metrics)
}

/// The run that `doc` holds: it is an object whose fields `name` and
/// `param` are texts and whose fields `time`, `memory_usage_bytes` and
/// `metrics` hold a time, a memory measurement and metrics.
pub open spec fn run_of(doc: Option<JsonView>) -> Option<RunView> {
    match doc {
        Some(JsonView::Object(fields)) => match (
            text_of(lookup(fields, "name"@)),
            text_of(lookup(fields, "param"@)),
            elapsed_of(lookup(fields, "time"@)),
            memory_of(lookup(fields, "memory_usage_bytes"@)),
            metrics_of(lookup(fields, "metrics"@)),
        ) {
            (Some(name), Some(param), Some(time), Some(memory_usage_bytes), Some(metrics)) => Some(
                RunView { name, param, time, memory_usage_bytes, metrics },
            ),
            _ => None,
        },
        _ => None,
    }
}

/// The names of the fields of a run differ from each other.
proof fn lemma_run_names()
    ensures
        "name"@ != "param"@,
        "name"@ != "time"@,
        "name"@ != "memory_usage_bytes"@,
        "name"@ != "metrics"@,
        "param"@ != "time"@,
        "param"@ != "memory_usage_bytes"@,
        "param"@ != "metrics"@,
        "time"@ != "memory_usage_bytes"@,
        "time"@ != "metrics"@,
        "memory_usage_bytes"@ != "metrics"@,
{
    reveal_strlit("name");
    reveal_strlit("param");
    reveal_strlit("time");
    reveal_strlit("memory_usage_bytes");
    reveal_strlit("metrics");
    assert("name"@.len() == 4 && "param"@.len() == 5 && "time"@.len() == 4);
    assert("memory_usage_bytes"@.len() == 18 && "metrics"@.len() == 7);
    assert("name"@[0] != "time"@[0]);
}

/// A document of a run holds that run.
pub proof fn lemma_run_round_trip(doc: JsonView, run: RunView)
    requires
        is_run_document(doc, run),
        recordable(run.time),
    ensures
        run_of(Some(doc)) == Some(run),
{
    let fields = doc->Object_0;
    lemma_run_names();
    assert(distinct_keys(fields));
    lemma_pairs_map_value(fields, 0);
    lemma_pairs_map_value(fields, 1);
    lemma_pairs_map_value(fields, 2);
    lemma_pairs_map_value(fields, 3);
    lemma_pairs_map_value(fields, 4);
    lemma_elapsed_round_trip(run.time);
    lemma_metrics_round_trip(fields[4].1, run.metrics);
}

/// Whether `doc` is a document of `result`: an object with the field
/// `name`, the text of the result's name, and the field `run`, a document
/// of its run.
pub open spec fn is_result_document(doc: JsonView, result: ResultView) -> bool {
    &&& doc matches JsonView::Object(fields)
    &&& fields.len() == 2
    &&& fields[0] == ("name"@, JsonView::Text(result.name))
    &&& fields[1].0 == "run"@
    &&& is_run_document(fields[1].1, result.run)
}

/// The result that `doc` holds: it is an object whose field `name` is a
/// text and whose field `run` holds a run.
pub open spec fn result_of(doc: Option<JsonView>) -> Option<ResultView> {
    match doc {
        Some(JsonView::Object(fields)) => match (text_of(lookup(fields, "name"@)), run_of(lookup(fields, "run"@))) {
            (Some(name), Some(run)) => Some(ResultView { name, run }),
            _ => None,
        },
        _ => None,
    }
}

/// The word that stands for `failure` in a document.
pub open spec fn failure_word(failure: ExecutionFailure) -> Seq<char> {
    match failure {
        ExecutionFailure::Spawn => "spawn"@,
        ExecutionFailure::Workload => "workload"@,
        ExecutionFailure::Transport => "transport"@,
    }
}

/// The failure that `doc` holds: it is the text of a failure's word.
pub open spec fn failure_of(doc: Option<JsonView>) -> Option<ExecutionFailure> {
    match text_of(doc) {
        Some(word) => if word == "spawn"@ {
            Some(ExecutionFailure::Spawn)
        } else if word == "workload"@ {
            Some(ExecutionFailure::Workload)
        } else if word == "transport"@ {
            Some(ExecutionFailure::Transport)
        } else {
            None
        },
        None => None,
    }
}

/// Whether `doc` is a document of `timing`: a document of the result, or
/// for a failure an object with the field `param`, the text of the
/// parameter label, and the field `failure`, the text of the failure's
/// word.
pub open spec fn is_timing_document(doc: JsonView, timing: TimingView) -> bool {
    match timing {
        TimingView::Completed(result) => is_result_document(doc, result),
        TimingView::Failed { param, failure } => doc == JsonView::Object(
            seq![("param"@, JsonView::Text(param)), ("failure"@, JsonView::Text(failure_word(failure)))],
        ),
    }
}

/// What `doc` holds of one variant. An object with a field `failure`
/// holds a failure, where that field holds one and the field `param` is a
/// text; any other document holds a result, where it holds one.
pub open spec fn timing_of(doc: Option<JsonView>) -> Option<TimingView> {
    match doc {
        Some(JsonView::Object(fields)) => if lookup(fields, "failure"@) is Some {
            match (text_of(lookup(fields, "param"@)), failure_of(lookup(fields, "failure"@))) {
                (Some(param), Some(failure)) => Some(TimingView::Failed { param, failure }),
                _ => None,
            }
        } else {
            match result_of(doc) {
                Some(result) => Some(TimingView::Completed(result)),
                None => None,
            }
        },
        _ => None,
    }
}

/// Whether a result of `timing` has a time that seconds and nanoseconds
/// can hold: every recorded one has.
pub open spec fn timing_recordable(timing: TimingView) -> bool {
    timing matches TimingView::Completed(result) ==> recordable(result.run.time)
}

/// The names of the fields of a result and of a failure differ from each
/// other, and so do the words of the failures.
proof fn lemma_timing_names()
    ensures
        "name"@ != "run"@,
        "name"@ != "failure"@,
        "run"@ != "failure"@,
        "param"@ != "failure"@,
        "spawn"@ != "workload"@,
        "spawn"@ != "transport"@,
        "workload"@ != "transport"@,
{
    reveal_strlit("name");
    reveal_strlit("run");
    reveal_strlit("failure");
    reveal_strlit("param");
    reveal_strlit("spawn");
    reveal_strlit("workload");
    reveal_strlit("transport");
    assert("name"@.len() == 4 && "run"@.len() == 3 && "failure"@.len() == 7 && "param"@.len() == 5);
    assert("spawn"@.len() == 5 && "workload"@.len() == 8 && "transport"@.len() == 9);
}

/// A document of a result holds that result.
pub proof fn lemma_result_round_trip(doc: JsonView, result: ResultView)
    requires
        is_result_document(doc, result),
        recordable(result.run.time),
    ensures
        result_of(Some(doc)) == Some(result),
{
    let fields = doc->Object_0;
    lemma_timing_names();
    assert(distinct_keys(fields));
    lemma_pairs_map_value(fields, 0);
    lemma_pairs_map_value(fields, 1);
    lemma_run_round_trip(fields[1].1, result.run);
}

/// A document of what a variant left holds just that.
pub proof fn lemma_timing_round_trip(doc: JsonView, timing: TimingView)
    requires
        is_timing_document(doc, timing),
        timing_recordable(timing),
    ensures
        timing_of(Some(doc)) == Some(timing),
{
    let fields = doc->Object_0;
    lemma_timing_names();
    match timing {
        TimingView::Completed(result) => {
            lemma_result_round_trip(doc, result);
            lemma_pairs_map_keys(fields, "failure"@);
        },
        TimingView::Failed { param, failure } => {
            assert(distinct_keys(fields));
            lemma_pairs_map_value(fields, 0);
            lemma_pairs_map_value(fields, 1);
        },
    }
}

/// The time of a run that a document holds is one that seconds and
/// nanoseconds can hold.
pub proof fn lemma_run_recordable(doc: JsonView, run: RunView)
    requires
        run_of(Some(doc)) == Some(run),
    ensures
        recordable(run.time),
{
    let held = lookup(doc->Object_0, "time"@);
    let secs = number_of(lookup(held->0->Object_0, "secs"@))->0;
    let nanos = number_of(lookup(held->0->Object_0, "nanos"@))->0;
    vstd::arithmetic::div_mod::lemma_fundamental_div_mod_converse(
        run.time as int,
        NANOS_PER_SEC as int,
        secs as int,
        nanos as int,
    );
}

/// Whether `doc` is a document of `entry`: an array of the text of the
/// variant's name and a document of what the variant left.
pub open spec fn is_entry_document(doc: JsonView, entry: SlotView) -> bool {
    &&& doc matches JsonView::Array(items)
    &&& items.len() == 2
    &&& items[0] == JsonView::Text(entry.0)
    &&& is_timing_document(items[1], entry.1)
}

/// The entry that `doc` holds: it is an array of a text and of a document
/// that holds a result or a failure.
pub open spec fn entry_of(doc: JsonView) -> Option<SlotView> {
    match doc {
        JsonView::Array(items) => if items.len() == 2 {
            match (text_of(Some(items[0])), timing_of(Some(items[1]))) {
                (Some(name), Some(timing)) => Some((name, timing)),
                _ => None,
            }
        } else {
            None
        },
        _ => None,
    }
}

/// The entries that `items` hold, in their order, where each holds one.
pub open spec fn entries_of(items: Seq<JsonView>) -> Option<Seq<SlotView>> {
    if forall|i: int| 0 <= i < items.len() ==> entry_of(#[trigger] items[i]) is Some {
        Some(items.map_values(|item: JsonView| entry_of(item).unwrap()))
    } else {
        None
    }
}

/// What a report holds, as mathematical values: the name of the suite and
/// its entries in order.
pub struct ReportView {
    pub name: Seq<char>,
    pub timings: Seq<SlotView>,
}

/// Whether `doc` is a document of `report`: an object with the field
/// `name`, the text of the suite's name, and the field `timings`, an array
/// of one document for each entry, in the order of the entries.
pub open spec fn is_report_document(doc: JsonView, report: ReportView) -> bool {
    &&& doc matches JsonView::Object(fields)
    &&& fields.len() == 2
    &&& fields[0] == ("name"@, JsonView::Text(report.name))
    &&& fields[1].0 == "timings"@
    &&& fields[1].1 matches JsonView::Array(items)
    &&& items.len() == report.timings.len()
    &&& forall|i: int| 0 <= i < items.len() ==> is_entry_document(#[trigger] items[i], report.timings[i])
}

/// The report that `doc` holds: it is an object whose field `name` is a
/// text and whose field `timings` is an array of documents that each hold
/// an entry.
pub open spec fn report_of(doc: Option<JsonView>) -> Option<ReportView> {
    match doc {
        Some(JsonView::Object(fields)) => match (text_of(lookup(fields, "name"@)), lookup(fields, "timings"@)) {
            (Some(name), Some(JsonView::Array(items))) => match entries_of(items) {
                Some(timings) => Some(ReportView { name, timings }),
                None => None,
            },
            _ => None,
        },
        _ => None,
    }
}

/// Whether every result of `report` has a time that seconds and
/// nanoseconds can hold: every recorded one has.
pub open spec fn report_recordable(report: ReportView) -> bool {
    forall|i: int| 0 <= i < report.timings.len() ==> timing_recordable((#[trigger] report.timings[i]).1)
}

/// A document of an entry holds that entry.
pub proof fn lemma_entry_round_trip(doc: JsonView, entry: SlotView)
    requires
        is_entry_document(doc, entry),
        timing_recordable(entry.1),
    ensures
        entry_of(doc) == Some(entry),
{
    lemma_timing_round_trip(doc->Array_0[1], entry.1);
}

/// Serialising a report and parsing it back gives the same report: a
/// document of a report holds the suite's name and every entry, with the
/// name, parameter label, time, memory measurement and metrics of each
/// run, in the same order.
pub proof fn lemma_report_round_trip(doc: JsonView, report: ReportView)
    requires
        is_report_document(doc, report),
        report_recordable(report),
    ensures
        report_of(Some(doc)) == Some(report),
{
    let fields = doc->Object_0;
    let items = fields[1].1->Array_0;
    reveal_strlit("name");
    reveal_strlit("timings");
    assert("name"@.len() != "timings"@.len());
    assert(distinct_keys(fields));
    lemma_pairs_map_value(fields, 0);
    lemma_pairs_map_value(fields, 1);
    assert forall|i: int| 0 <= i < items.len() implies entry_of(#[trigger] items[i]) == Some(
        report.timings[i],
    ) by {
        lemma_entry_round_trip(items[i], report.timings[i]);
    }
    assert(entries_of(items)->0 =~= report.timings);
}

} // verus!
