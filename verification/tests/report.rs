use benchy::{
    Benchmark, BenchmarkResult, BenchmarkRun, Elapsed, ExecutionFailure, Json, Metrics, Report, Timing,
};
use serde_json::{Number, Value};

fn to_value(doc: &Json) -> Value {
    match doc {
        Json::Null => Value::Null,
        Json::Number(n) => Value::Number(Number::from(*n)),
        Json::Text(text) => Value::String(text.clone()),
        Json::Array(items) => Value::Array(items.iter().map(to_value).collect()),
        Json::Object(fields) => {
            let mut map = serde_json::Map::new();
            for (name, held) in fields {
                map.insert(name.clone(), to_value(held));
            }
            Value::Object(map)
        },
    }
}

fn from_value(value: &Value) -> Option<Json> {
    match value {
        Value::Null => Some(Json::Null),
        Value::Bool(_) => None,
        Value::Number(n) => n.as_u64().map(Json::Number),
        Value::String(text) => Some(Json::Text(text.clone())),
        Value::Array(items) => items.iter().map(from_value).collect::<Option<Vec<Json>>>().map(Json::Array),
        Value::Object(map) => {
            let mut fields = Vec::new();
            for (name, held) in map {
                fields.push((name.clone(), from_value(held)?));
            }
            Some(Json::Object(fields))
        },
    }
}

fn object(fields: Vec<(&str, Json)>) -> Json {
    Json::Object(fields.into_iter().map(|(name, held)| (String::from(name), held)).collect())
}

fn text(text: &str) -> Json {
    Json::Text(String::from(text))
}

fn field<'a>(doc: &'a Json, name: &str) -> &'a Json {
    match doc {
        Json::Object(fields) => &fields.iter().find(|field| field.0 == name).expect("the field").1,
        other => panic!("{:?} is no object", other),
    }
}

fn names(doc: &Json) -> Vec<&str> {
    match doc {
        Json::Object(fields) => fields.iter().map(|field| field.0.as_str()).collect(),
        other => panic!("{:?} is no object", other),
    }
}

fn sample_run() -> BenchmarkRun {
    let mut run = BenchmarkRun::new(String::from("small"), String::from("n=10"));
    run.set_time(Elapsed::new(2, 500).unwrap());
    run.memory_usage_bytes = Some(4096);
    run.log("ops", 100);
    run.log("bytes", 12);
    run
}

fn same_run(left: &BenchmarkRun, right: &BenchmarkRun) {
    assert_eq!(left.name, right.name);
    assert_eq!(left.param, right.param);
    assert_eq!(left.time.secs(), right.time.secs());
    assert_eq!(left.time.subsec_nanos(), right.time.subsec_nanos());
    assert_eq!(left.memory_usage_bytes, right.memory_usage_bytes);
    assert_eq!(left.metrics.len(), right.metrics.len());
    for (name, value) in left.metrics.entries() {
        assert_eq!(right.metrics.get(name), Some(*value));
    }
}

#[test]
fn run_document_has_the_fields_of_a_run() {
    let doc = sample_run().to_document();
    assert_eq!(names(&doc), vec!["name", "param", "time", "memory_usage_bytes", "metrics"]);
    assert_eq!(to_value(field(&doc, "name")), Value::String(String::from("small")));
    assert_eq!(to_value(field(&doc, "param")), Value::String(String::from("n=10")));
    assert_eq!(names(field(&doc, "time")), vec!["secs", "nanos"]);
    assert_eq!(to_value(field(field(&doc, "time"), "secs")), Value::Number(Number::from(2u64)));
    assert_eq!(to_value(field(field(&doc, "time"), "nanos")), Value::Number(Number::from(500u64)));
    assert_eq!(to_value(field(&doc, "memory_usage_bytes")), Value::Number(Number::from(4096u64)));
    let mut metrics = names(field(&doc, "metrics"));
    metrics.sort();
    assert_eq!(metrics, vec!["bytes", "ops"]);
    assert_eq!(to_value(field(field(&doc, "metrics"), "ops")), Value::Number(Number::from(100u64)));
    assert_eq!(to_value(field(field(&doc, "metrics"), "bytes")), Value::Number(Number::from(12u64)));
}

#[test]
fn missing_memory_measurement_is_null() {
    let run = BenchmarkRun::new(String::from("small"), String::new());
    let doc = run.to_document();
    assert_eq!(to_value(field(&doc, "memory_usage_bytes")), Value::Null);
    let back = BenchmarkRun::from_document(&doc).expect("a run");
    assert_eq!(back.memory_usage_bytes, None);
}

#[test]
fn run_document_reads_back_as_the_same_run() {
    let run = sample_run();
    let back = BenchmarkRun::from_document(&run.to_document()).expect("a run");
    same_run(&run, &back);
}

#[test]
fn run_is_read_whatever_the_order_of_the_fields() {
    let doc = object(vec![
        ("metrics", object(vec![("ops", Json::Number(3))])),
        ("time", object(vec![("nanos", Json::Number(7)), ("secs", Json::Number(1))])),
        ("extra", Json::Null),
        ("param", text("p")),
        ("memory_usage_bytes", Json::Null),
        ("name", text("small")),
    ]);
    let run = BenchmarkRun::from_document(&doc).expect("a run");
    assert_eq!(run.name, "small");
    assert_eq!(run.param, "p");
    assert_eq!(run.time.secs(), 1);
    assert_eq!(run.time.subsec_nanos(), 7);
    assert_eq!(run.memory_usage_bytes, None);
    assert_eq!(run.metrics.get("ops"), Some(3));
}

#[test]
fn a_later_field_counts_where_a_name_occurs_twice() {
    let doc = object(vec![
        ("name", text("first")),
        ("param", text("p")),
        ("time", object(vec![("secs", Json::Number(0)), ("nanos", Json::Number(0))])),
        ("memory_usage_bytes", Json::Null),
        ("metrics", object(vec![("ops", Json::Number(1)), ("ops", Json::Number(2))])),
        ("name", text("second")),
    ]);
    let run = BenchmarkRun::from_document(&doc).expect("a run");
    assert_eq!(run.name, "second");
    assert_eq!(run.metrics.len(), 1);
    assert_eq!(run.metrics.get("ops"), Some(2));
}

#[test]
fn documents_that_hold_no_run_are_refused() {
    let time = || object(vec![("secs", Json::Number(0)), ("nanos", Json::Number(0))]);
    let full = |skip: &str| {
        let fields = vec![
            ("name", text("small")),
            ("param", text("p")),
            ("time", time()),
            ("memory_usage_bytes", Json::Null),
            ("metrics", object(vec![])),
        ];
        object(fields.into_iter().filter(|field| field.0 != skip).collect())
    };
    assert!(BenchmarkRun::from_document(&full("")).is_some());
    for skip in ["name", "param", "time", "memory_usage_bytes", "metrics"] {
        assert!(BenchmarkRun::from_document(&full(skip)).is_none(), "without {}", skip);
    }
    assert!(BenchmarkRun::from_document(&Json::Null).is_none());
    assert!(BenchmarkRun::from_document(&Json::Array(vec![])).is_none());
    assert!(BenchmarkRun::from_document(&text("small")).is_none());

    let with = |name: &'static str, held: Json| {
        let mut fields = match full("") {
            Json::Object(fields) => fields,
            _ => unreachable!(),
        };
        fields.push((String::from(name), held));
        Json::Object(fields)
    };
    assert!(BenchmarkRun::from_document(&with("name", Json::Number(1))).is_none());
    assert!(BenchmarkRun::from_document(&with("param", Json::Null)).is_none());
    assert!(BenchmarkRun::from_document(&with("memory_usage_bytes", text("4096"))).is_none());
    assert!(BenchmarkRun::from_document(&with("metrics", Json::Array(vec![]))).is_none());
    assert!(BenchmarkRun::from_document(&with("metrics", object(vec![("ops", text("1"))]))).is_none());
    assert!(BenchmarkRun::from_document(&with("time", Json::Number(3))).is_none());
}

#[test]
fn time_documents() {
    let doc = Elapsed::new(9, 999_999_999).unwrap().to_document();
    let back = Elapsed::from_document(&doc).expect("a time");
    assert_eq!(back.secs(), 9);
    assert_eq!(back.subsec_nanos(), 999_999_999);
    let too_many = object(vec![("secs", Json::Number(0)), ("nanos", Json::Number(1_000_000_000))]);
    assert!(Elapsed::from_document(&too_many).is_none());
    let far_too_many = object(vec![("secs", Json::Number(0)), ("nanos", Json::Number(u64::MAX))]);
    assert!(Elapsed::from_document(&far_too_many).is_none());
    assert!(Elapsed::from_document(&object(vec![("secs", Json::Number(0))])).is_none());
    assert!(Elapsed::from_document(&object(vec![("nanos", Json::Number(0))])).is_none());
    let longest = object(vec![("secs", Json::Number(u64::MAX)), ("nanos", Json::Number(999_999_999))]);
    assert_eq!(Elapsed::from_document(&longest).expect("a time").secs(), u64::MAX);
}

#[test]
fn metrics_documents() {
    let mut metrics = Metrics::new();
    metrics.insert(String::from("a"), 1);
    metrics.insert(String::from("b"), usize::MAX);
    let back = Metrics::from_document(&metrics.to_document()).expect("metrics");
    assert_eq!(back.len(), 2);
    assert_eq!(back.get("a"), Some(1));
    assert_eq!(back.get("b"), Some(usize::MAX));
    let none = Metrics::from_document(&Metrics::new().to_document()).expect("metrics");
    assert_eq!(none.len(), 0);
    assert!(Metrics::from_document(&Json::Null).is_none());
}

#[test]
fn result_and_failure_documents() {
    let result = BenchmarkResult::new(String::from("small"), sample_run());
    let doc = result.to_document();
    assert_eq!(names(&doc), vec!["name", "run"]);
    let back = BenchmarkResult::from_document(&doc).expect("a result");
    assert_eq!(back.name, "small");
    same_run(&back.run, &result.run);

    match Timing::from_document(&doc) {
        Some(Timing::Completed(back)) => same_run(&back.run, &result.run),
        other => panic!("{:?}", other),
    }

    for failure in [ExecutionFailure::Workload, ExecutionFailure::Transport, ExecutionFailure::Spawn] {
        let failed = Timing::Failed { param: String::from("n=10"), failure };
        let doc = failed.to_document();
        assert_eq!(names(&doc), vec!["param", "failure"]);
        assert_eq!(to_value(field(&doc, "failure")), Value::String(String::from(failure.word())));
        match Timing::from_document(&doc) {
            Some(Timing::Failed { param, failure: back }) => {
                assert_eq!(param, "n=10");
                assert_eq!(back, failure);
            },
            other => panic!("{:?}", other),
        }
    }
    let unknown = object(vec![("param", text("p")), ("failure", text("unknown"))]);
    assert!(Timing::from_document(&unknown).is_none());
    let unlabelled = object(vec![("failure", text("workload"))]);
    assert!(Timing::from_document(&unlabelled).is_none());
}

fn sample_suite() -> Benchmark<'static> {
    let mut suite = Benchmark::new("matmul");
    suite
        .benchmark("small", |run| {
            let mut run = run;
            run.run(|| ());
            run.memory_usage_bytes = Some(1 << 20);
            run.log("ops", 100);
            Ok(run)
        })
        .unwrap();
    let params = [("n=10", 10usize), ("n=100", 100), ("n=1000", 1000)];
    suite
        .benchmark_with("scale", &params, |run, n: &usize| {
            if *n == 100 {
                return Err(ExecutionFailure::Workload);
            }
            let mut run = run;
            run.log("n", *n);
            run.log("x", 7);
            run.log("x", 9);
            Ok(run)
        })
        .unwrap();
    suite
}

fn same_report(suite: &Benchmark, report: &Report) {
    assert_eq!(report.name, suite.name());
    assert_eq!(report.timings.len(), suite.timings().len());
    for (left, right) in suite.timings().iter().zip(report.timings.iter()) {
        assert_eq!(left.0, right.0);
        match (&left.1, &right.1) {
            (Timing::Completed(left), Timing::Completed(right)) => {
                assert_eq!(left.name, right.name);
                same_run(&left.run, &right.run);
            },
            (
                Timing::Failed { param: left_param, failure: left_failure },
                Timing::Failed { param: right_param, failure: right_failure },
            ) => {
                assert_eq!(left_param, right_param);
                assert_eq!(left_failure, right_failure);
            },
            other => panic!("{:?}", other),
        }
    }
}

#[test]
fn report_document_has_name_and_timings() {
    let suite = sample_suite();
    let doc = suite.report();
    assert_eq!(names(&doc), vec!["name", "timings"]);
    assert_eq!(to_value(field(&doc, "name")), Value::String(String::from("matmul")));
    let items = match field(&doc, "timings") {
        Json::Array(items) => items,
        other => panic!("{:?}", other),
    };
    assert_eq!(items.len(), 4);
    for (item, variant) in items.iter().zip(["small", "scale", "scale", "scale"]) {
        match item {
            Json::Array(pair) => {
                assert_eq!(pair.len(), 2);
                assert_eq!(to_value(&pair[0]), Value::String(String::from(variant)));
            },
            other => panic!("{:?}", other),
        }
    }
}

#[test]
fn report_reads_back_as_the_same_report() {
    let suite = sample_suite();
    let report = Report::from_document(&suite.report()).expect("a report");
    same_report(&suite, &report);
    let again = Report::from_document(&report.to_document()).expect("a report");
    same_report(&suite, &again);
}

#[test]
fn report_survives_being_printed_and_parsed() {
    let suite = sample_suite();
    let printed = serde_json::to_string_pretty(&to_value(&suite.report())).expect("text");
    let parsed: Value = serde_json::from_str(&printed).expect("a value");
    let doc = from_value(&parsed).expect("a document");
    let report = Report::from_document(&doc).expect("a report");
    same_report(&suite, &report);
    match &report.timings[3].1 {
        Timing::Completed(result) => {
            assert_eq!(result.run.param, "n=1000");
            assert_eq!(result.run.metrics.len(), 2);
            assert_eq!(result.run.metrics.get("x"), Some(9));
            assert_eq!(result.run.metrics.get("n"), Some(1000));
        },
        other => panic!("{:?}", other),
    }
}

#[test]
fn empty_report() {
    let suite = Benchmark::new("none");
    let report = Report::from_document(&suite.report()).expect("a report");
    assert_eq!(report.name, "none");
    assert!(report.timings.is_empty());
    let printed = serde_json::to_string(&to_value(&suite.report())).expect("text");
    assert_eq!(printed, "{\"name\":\"none\",\"timings\":[]}");
}

#[test]
fn documents_that_hold_no_report_are_refused() {
    assert!(Report::from_document(&Json::Null).is_none());
    assert!(Report::from_document(&object(vec![("name", text("s"))])).is_none());
    assert!(Report::from_document(&object(vec![("timings", Json::Array(vec![]))])).is_none());
    assert!(Report::from_document(&object(vec![("name", text("s")), ("timings", Json::Null)])).is_none());
    let bad_entry = object(vec![("name", text("s")), ("timings", Json::Array(vec![Json::Null]))]);
    assert!(Report::from_document(&bad_entry).is_none());
    let short_entry = object(vec![("name", text("s")), ("timings", Json::Array(vec![Json::Array(vec![text("v")])]))]);
    assert!(Report::from_document(&short_entry).is_none());
}
