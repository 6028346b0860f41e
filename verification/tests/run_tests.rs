use rust_lt::action::ActionResult;
use rust_lt::runner::{summarize_runs, vu_label, Collector, ExecutorConfig};
use rust_lt::scenario::FlowStep;
use rust_lt::session::Session;
use rust_lt::stats::MetricType;
use rust_lt::string_map::StringMap;
use rust_lt::vu::{apply_feed, is_http_request, metrics_for, FeedOutcome, UserRun, VuResult};

fn result(name: &str, ok: bool, ms: u64, sent: usize, received: usize) -> ActionResult {
    let mut r = if ok {
        ActionResult::success(name.to_string(), ms)
    } else {
        ActionResult::failure(name.to_string(), "e".to_string(), ms)
    };
    r.bytes_sent = sent;
    r.bytes_received = received;
    r
}

#[test]
fn feeding_rows_into_sessions() {
    let mut session = Session::new(1, "s".to_string());
    session.set("name".to_string(), "old".to_string());
    let mut row = StringMap::new();
    row.insert("name".to_string(), "alice".to_string());
    let r = apply_feed(&mut session, "users", FeedOutcome::Row(row));
    assert!(r.success);
    assert_eq!(r.name, "feed:users");
    assert_eq!(session.get("name"), Some("alice"));

    let r = apply_feed(&mut session, "users", FeedOutcome::Exhausted);
    assert!(!r.success);
    assert_eq!(r.error, Some("Feeder 'users' exhausted".to_string()));

    let r = apply_feed(&mut session, "other", FeedOutcome::Missing);
    assert_eq!(r.name, "feed:other");
    assert_eq!(r.error, Some("Feeder 'other' not found".to_string()));
    assert_eq!(session.get("name"), Some("alice"));
}

#[test]
fn metric_samples_of_results() {
    let samples = metrics_for(&result("r", true, 12, 0, 30));
    let kinds: Vec<(MetricType, &str, u64)> =
        samples.iter().map(|s| (s.kind.clone(), s.label, s.value)).collect();
    assert_eq!(
        kinds,
        vec![
            (MetricType::ResponseTime, "response_time", 12),
            (MetricType::BytesReceived, "bytes_received", 30),
            (MetricType::Success, "success", 1),
        ]
    );
    let failed = metrics_for(&result("r", false, 5, 7, 0));
    assert_eq!(failed.len(), 3);
    assert_eq!(failed[1].kind, MetricType::BytesSent);
    assert_eq!(failed[2].kind, MetricType::Failure);
}

#[test]
fn http_steps_are_recognised() {
    let http = FlowStep::HttpRequest {
        name: "n".to_string(),
        method: "GET".to_string(),
        url: "u".to_string(),
        headers: StringMap::new(),
        body: None,
        checks: vec![],
        extractions: vec![],
    };
    assert!(is_http_request(&http));
    let other = FlowStep::Request {
        protocol: "grpc".to_string(),
        name: "n".to_string(),
        method: "GET".to_string(),
        url: "u".to_string(),
        headers: StringMap::new(),
        body: None,
        checks: vec![],
        extractions: vec![],
    };
    assert!(!is_http_request(&other));
    assert!(!is_http_request(&FlowStep::Wait { duration: 1 }));
}

#[test]
fn user_results_are_summarised() {
    let results = vec![result("a", true, 10, 1, 2), result("b", false, 21, 3, 4), result("c", true, 30, 0, 0)];
    let vu = VuResult::from_run(7, 100, results, None);
    assert!(vu.success);
    assert_eq!(vu.vu_id, 7);
    assert_eq!(vu.total_actions, 3);
    assert_eq!(vu.successful_actions, 2);
    assert_eq!(vu.failed_actions, 1);
    assert_eq!(vu.avg_response_time_ms, 20);
    assert_eq!(vu.total_bytes_sent, 4);
    assert_eq!(vu.total_bytes_received, 6);
    assert_eq!(vu.action_results.len(), 3);

    let empty = VuResult::from_run(1, 0, vec![], Some("boom".to_string()));
    assert!(!empty.success);
    assert_eq!(empty.avg_response_time_ms, 0);
    assert_eq!(empty.error, Some("boom".to_string()));
}

#[test]
fn run_totals_over_users() {
    let a = VuResult::from_run(0, 10, vec![result("a", true, 10, 1, 2), result("b", true, 50, 0, 0)], None);
    let b = VuResult::from_run(1, 10, vec![result("c", false, 3, 5, 6)], Some("x".to_string()));
    let c = VuResult::from_run(2, 10, vec![], None);
    let totals = summarize_runs(&vec![a, b, c]);
    assert!(!totals.success);
    assert_eq!(totals.total_vus, 3);
    assert_eq!(totals.successful_vus, 2);
    assert_eq!(totals.failed_vus, 1);
    assert_eq!(totals.total_actions, 3);
    assert_eq!(totals.successful_actions, 2);
    assert_eq!(totals.failed_actions, 1);
    assert_eq!(totals.total_bytes_sent, 6);
    assert_eq!(totals.total_bytes_received, 8);
    assert_eq!(totals.avg_response_time_ms, 21);
    assert_eq!(totals.min_response_time_ms, 3);
    assert_eq!(totals.max_response_time_ms, 50);

    let none = summarize_runs(&vec![]);
    assert!(none.success);
    assert_eq!(none.min_response_time_ms, 0);
    assert_eq!(none.avg_response_time_ms, 0);
}

#[test]
fn executor_config_decisions() {
    let config = ExecutorConfig::default();
    assert_eq!(config.max_concurrent_vus, None);
    assert!(!config.stop_on_error);
    assert!(config.show_progress);
    assert!(config.log_directory.is_none());
    assert!(!config.must_wait(1000));
    assert!(config.progress_due(20));
    assert!(!config.progress_due(21));
    assert!(!config.stops_after(false));

    let limited = ExecutorConfig {
        max_concurrent_vus: Some(2),
        stop_on_error: true,
        show_progress: false,
        log_directory: None,
    };
    assert!(limited.must_wait(2));
    assert!(!limited.must_wait(1));
    assert!(limited.stops_after(false));
    assert!(!limited.stops_after(true));
    assert!(!limited.progress_due(10));
    assert_eq!(vu_label(12), "vu_12");
}

#[test]
fn user_runs_go_through_steps_in_order() {
    let mut run = UserRun::new(3);
    let mut ran = Vec::new();
    while let Some(i) = run.next_step() {
        ran.push(i);
        run.record(result(&format!("step{}", i), i != 1, 10 * (i as u64 + 1), 0, 0));
    }
    assert_eq!(ran, vec![0, 1, 2]);
    let r = run.finish(7, 99);
    assert!(r.success);
    assert_eq!(r.total_actions, 3);
    assert_eq!(r.successful_actions, 2);
    assert_eq!(r.action_results[1].name, "step1");
    assert_eq!(r.avg_response_time_ms, 20);

    let mut cut = UserRun::new(3);
    cut.record(result("only", true, 5, 0, 0));
    assert_eq!(cut.next_step(), Some(1));
    cut.fail("boom".to_string());
    assert_eq!(cut.next_step(), None);
    let r2 = cut.finish(8, 5);
    assert_eq!(r2.total_actions, 1);
    assert!(!r2.success);
    assert_eq!(r2.error, Some("boom".to_string()));
}

fn vu(id: usize, ok: bool) -> VuResult {
    VuResult::from_run(id, 0, vec![result("a", ok, 1, 0, 0)], if ok { None } else { Some("x".to_string()) })
}

#[test]
fn collector_keeps_results_until_stop_on_error() {
    let keep_all = ExecutorConfig::default();
    let mut c = Collector::new(&keep_all);
    for _ in 0..4 {
        c.spawn();
    }
    assert_eq!(c.pending(), 4);
    assert!(!c.take(Some(vu(1, true))));
    assert!(!c.take(Some(vu(2, false))));
    assert!(!c.take(None));
    assert!(!c.take(Some(vu(3, true))));
    assert_eq!(c.pending(), 0);
    let ids: Vec<usize> = c.into_results().iter().map(|r| r.vu_id).collect();
    assert_eq!(ids, vec![1, 2, 3]);

    let mut stopping_config = ExecutorConfig::default();
    stopping_config.stop_on_error = true;
    let mut s = Collector::new(&stopping_config);
    for _ in 0..3 {
        s.spawn();
    }
    assert!(!s.take(Some(vu(1, true))));
    assert!(s.take(Some(vu(2, false))));
    assert!(s.is_stopped());
    let ids: Vec<usize> = s.into_results().iter().map(|r| r.vu_id).collect();
    assert_eq!(ids, vec![1, 2]);

    let mut t = Collector::new(&stopping_config);
    t.spawn();
    assert!(t.take(None));
    assert!(t.into_results().is_empty());
}

#[test]
fn every_spawned_user_is_counted() {
    // Three users, each taken in as it finishes: all three are collected.
    let mut c = Collector::new(&ExecutorConfig::default());
    c.spawn();
    c.spawn();
    assert!(!c.take(Some(vu(1, true))));
    c.spawn();
    assert!(!c.take(Some(vu(2, true))));
    assert!(!c.take(Some(vu(3, true))));
    assert_eq!(c.into_results().len(), 3);
}
