use benchy::{Benchmark, BenchmarkConfig, BenchmarkRun, Emit, ExecutionFailure, Timing};

fn in_process(run: BenchmarkRun) -> Result<BenchmarkRun, ExecutionFailure> {
    Ok(run)
}

fn completed(timing: &Timing) -> &benchy::BenchmarkResult {
    match timing {
        Timing::Completed(result) => result,
        Timing::Failed { param, failure } => panic!("failed slot {:?} {:?}", param, failure),
    }
}

#[test]
fn timings_keep_the_order_of_the_calls() {
    let mut suite = Benchmark::new("order");
    assert!(suite.benchmark("first", in_process).is_ok());
    let params = [("a", 1u32), ("b", 2), ("c", 3)];
    assert!(suite.benchmark_with("sweep", &params, |run, _: &u32| Ok(run)).is_ok());
    assert!(suite.benchmark("last", in_process).is_ok());
    assert!(suite.benchmark("first", in_process).is_ok());

    let seen: Vec<(String, String)> = suite
        .timings()
        .iter()
        .map(|slot| (slot.0.clone(), completed(&slot.1).run.param.clone()))
        .collect();
    let expected: Vec<(String, String)> = [
        ("first", ""),
        ("sweep", "a"),
        ("sweep", "b"),
        ("sweep", "c"),
        ("last", ""),
        ("first", ""),
    ]
        .iter()
        .map(|(name, param)| (String::from(*name), String::from(*param)))
        .collect();
    assert_eq!(seen, expected);
}

#[test]
fn quick_mode_runs_the_first_parameter_only() {
    let config = BenchmarkConfig { quick: true, output_dir: None };
    let mut suite = Benchmark::with_config("quick", config);
    let params = [("a", ()), ("b", ()), ("c", ())];
    let mut calls = std::cell::Cell::new(0);
    let done = suite.benchmark_with("sweep", &params, |run, _: &()| {
        calls.set(calls.get() + 1);
        Ok(run)
    });
    assert!(done.is_ok());
    assert_eq!(*calls.get_mut(), 1);
    assert_eq!(suite.timings().len(), 1);
    assert_eq!(completed(&suite.timings()[0].1).run.param, "a");
}

#[test]
fn full_mode_runs_every_parameter_in_order() {
    let config = BenchmarkConfig { quick: false, output_dir: None };
    let mut suite = Benchmark::with_config("full", config);
    let params = [("a", ()), ("b", ()), ("c", ())];
    let done = suite.benchmark_with("sweep", &params, |run, _: &()| Ok(run));
    assert!(done.is_ok());
    assert_eq!(suite.timings().len(), 3);
    assert_eq!(completed(&suite.timings()[0].1).run.param, "a");
    assert_eq!(completed(&suite.timings()[1].1).run.param, "b");
    assert_eq!(completed(&suite.timings()[2].1).run.param, "c");
}

#[test]
fn empty_sweep_records_nothing() {
    for quick in [false, true] {
        let mut suite = Benchmark::with_config("empty", BenchmarkConfig { quick, output_dir: None });
        let params: [(&str, u8); 0] = [];
        assert!(suite.benchmark_with("sweep", &params, |run, _: &u8| Ok(run)).is_ok());
        assert!(suite.timings().is_empty());
    }
}

#[test]
fn sweep_hands_each_parameter_to_its_run() {
    let mut suite = Benchmark::new("params");
    let params = [("n=10", 10usize), ("n=100", 100)];
    let done = suite.benchmark_with("scale", &params, |run, n: &usize| {
        let mut run = run;
        run.log("n", *n);
        Ok(run)
    });
    assert!(done.is_ok());
    assert_eq!(completed(&suite.timings()[0].1).run.metrics.get("n"), Some(10));
    assert_eq!(completed(&suite.timings()[1].1).run.metrics.get("n"), Some(100));
}

#[test]
fn matmul_small_scenario() {
    let mut suite = Benchmark::new("matmul");
    let done = suite.benchmark("small", |run| {
        let mut run = run;
        run.run(|| {
            let start = std::time::Instant::now();
            while start.elapsed() < std::time::Duration::from_millis(1) {}
        });
        run.log("ops", 100);
        Ok(run)
    });
    assert!(done.is_ok());
    assert_eq!(suite.name(), "matmul");
    assert_eq!(suite.timings().len(), 1);
    let (variant, timing) = &suite.timings()[0];
    assert_eq!(variant, "small");
    let result = completed(timing);
    assert_eq!(result.name, "small");
    assert_eq!(result.run.name, "small");
    assert_eq!(result.run.param, "");
    assert_eq!(result.run.metrics.len(), 1);
    assert_eq!(result.run.metrics.get("ops"), Some(100));
    assert!(!result.run.time.is_zero());
}

#[test]
fn sweep_demo_scenario() {
    let config = BenchmarkConfig { quick: false, output_dir: None };
    let mut suite = Benchmark::with_config("sweep_demo", config);
    let params = [("n=10", 10), ("n=100", 100)];
    assert!(suite.benchmark_with("scale", &params, |run, _: &i32| Ok(run)).is_ok());
    assert_eq!(suite.timings().len(), 2);
    assert_eq!(suite.timings()[0].0, "scale");
    assert_eq!(suite.timings()[1].0, "scale");
    assert_eq!(completed(&suite.timings()[0].1).name, "scale");
    assert_eq!(completed(&suite.timings()[1].1).name, "scale");
    assert_eq!(completed(&suite.timings()[0].1).run.param, "n=10");
    assert_eq!(completed(&suite.timings()[1].1).run.param, "n=100");
}

#[test]
fn a_failed_variant_leaves_a_mark_and_the_suite_goes_on() {
    let mut suite = Benchmark::new("failures");
    let params = [("ok", 0u8), ("crash", 1), ("garbled", 2), ("fine", 0)];
    let done = suite.benchmark_with("sweep", &params, |run, kind: &u8| match *kind {
        1 => Err(ExecutionFailure::Workload),
        2 => Err(ExecutionFailure::Transport),
        _ => Ok(run),
    });
    assert!(done.is_ok());
    assert!(suite.benchmark("after", in_process).is_ok());
    assert_eq!(suite.timings().len(), 5);
    assert_eq!(completed(&suite.timings()[0].1).run.param, "ok");
    match &suite.timings()[1] {
        (name, Timing::Failed { param, failure }) => {
            assert_eq!(name, "sweep");
            assert_eq!(param, "crash");
            assert_eq!(*failure, ExecutionFailure::Workload);
        },
        other => panic!("{:?}", other),
    }
    match &suite.timings()[2] {
        (name, Timing::Failed { param, failure }) => {
            assert_eq!(name, "sweep");
            assert_eq!(param, "garbled");
            assert_eq!(*failure, ExecutionFailure::Transport);
        },
        other => panic!("{:?}", other),
    }
    assert_eq!(completed(&suite.timings()[3].1).run.param, "fine");
    assert_eq!(suite.timings()[4].0, "after");
}

#[test]
fn a_failed_single_variant_leaves_a_mark_with_an_empty_label() {
    let mut suite = Benchmark::new("failures");
    assert!(suite.benchmark("crash", |_| Err(ExecutionFailure::Workload)).is_ok());
    match &suite.timings()[0] {
        (name, Timing::Failed { param, failure }) => {
            assert_eq!(name, "crash");
            assert_eq!(param, "");
            assert_eq!(*failure, ExecutionFailure::Workload);
        },
        other => panic!("{:?}", other),
    }
}

#[test]
fn a_spawn_failure_ends_the_sweep_and_is_handed_back() {
    let mut suite = Benchmark::new("spawn");
    assert!(suite.benchmark("before", in_process).is_ok());
    let params = [("a", 0u8), ("b", 1), ("c", 0)];
    let done = suite.benchmark_with("sweep", &params, |run, kind: &u8| match *kind {
        1 => Err(ExecutionFailure::Spawn),
        _ => Ok(run),
    });
    assert_eq!(done, Err(ExecutionFailure::Spawn));
    assert_eq!(suite.timings().len(), 2);
    assert_eq!(suite.timings()[0].0, "before");
    assert_eq!(completed(&suite.timings()[1].1).run.param, "a");

    let done = suite.benchmark("single", |_| Err(ExecutionFailure::Spawn));
    assert_eq!(done, Err(ExecutionFailure::Spawn));
    assert_eq!(suite.timings().len(), 2);
}

#[test]
fn record_appends_what_came_back() {
    let mut suite = Benchmark::new("record");
    let mut run = BenchmarkRun::new(String::from("v"), String::from("p"));
    run.log("ops", 2);
    assert_eq!(suite.record("v", "p", Ok(run)), Ok(()));
    assert_eq!(suite.record("w", "q", Err(ExecutionFailure::Transport)), Ok(()));
    assert_eq!(suite.record("x", "r", Err(ExecutionFailure::Spawn)), Err(ExecutionFailure::Spawn));
    assert_eq!(suite.timings().len(), 2);
    assert_eq!(suite.timings()[0].0, "v");
    assert_eq!(completed(&suite.timings()[0].1).name, "v");
    assert_eq!(completed(&suite.timings()[0].1).run.metrics.get("ops"), Some(2));
    match &suite.timings()[1] {
        (name, Timing::Failed { param, failure }) => {
            assert_eq!(name, "w");
            assert_eq!(param, "q");
            assert_eq!(*failure, ExecutionFailure::Transport);
        },
        other => panic!("{:?}", other),
    }
}

#[test]
fn every_run_starts_fresh() {
    let mut suite = Benchmark::new("fresh");
    let params = [("a", ()), ("b", ())];
    let done = suite.benchmark_with("sweep", &params, |run, _: &()| {
        assert_eq!(run.name, "sweep");
        assert!(run.time.is_zero());
        assert_eq!(run.memory_usage_bytes, None);
        assert_eq!(run.metrics.len(), 0);
        let mut run = run;
        run.log("seen", 1);
        Ok(run)
    });
    assert!(done.is_ok());
    assert_eq!(suite.timings().len(), 2);
}

#[test]
fn output_without_a_location_only_prints() {
    let suite = Benchmark::new("matmul");
    let steps = suite.output(String::from("{\"name\": \"matmul\"}"));
    assert_eq!(steps.len(), 1);
    match &steps[0] {
        Emit::Print { text } => assert_eq!(text, "{\"name\": \"matmul\"}"),
        other => panic!("{:?}", other),
    }
}

#[test]
fn output_with_a_location_prints_and_then_persists_the_same_text() {
    let config = BenchmarkConfig { quick: false, output_dir: Some(String::from("/tmp/bench-out")) };
    let suite = Benchmark::with_config("matmul", config);
    let report = String::from("{\n  \"name\": \"matmul\",\n  \"timings\": []\n}");
    let steps = suite.output(report.clone());
    assert_eq!(steps.len(), 2);
    let printed = match &steps[0] {
        Emit::Print { text } => text,
        other => panic!("{:?}", other),
    };
    assert_eq!(*printed, report);
    match &steps[1] {
        Emit::Persist { dir, file_name, content } => {
            assert_eq!(dir, "/tmp/bench-out");
            assert_eq!(file_name, "matmul.json");
            assert_eq!(content, printed);
            assert_eq!(content.as_bytes(), report.as_bytes());
        },
        other => panic!("{:?}", other),
    }
}

#[test]
fn report_file_is_named_after_the_whole_suite_name() {
    let config = BenchmarkConfig { quick: false, output_dir: Some(String::new()) };
    let suite = Benchmark::with_config("v1.2", config);
    match &suite.output(String::new())[1] {
        Emit::Persist { dir, file_name, content } => {
            assert_eq!(dir, "");
            assert_eq!(file_name, "v1.2.json");
            assert_eq!(content, "");
        },
        other => panic!("{:?}", other),
    }
}
