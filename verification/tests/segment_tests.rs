use rust_lt::reporters::{get_dashboard_html_path, get_dashboard_js_path, minutes_seconds, run_finished, ConsoleReporter, CsvParser};
use rust_lt::segments::{run_id, segment_path, segments_dir, temp_path, SegmentWriter, WriterStep};

#[test]
fn test_console_reporter_creation() {
    let reporter = ConsoleReporter::new();
    assert!(reporter.show_progress);
    assert_eq!(reporter.update_interval_secs, 5);
}

#[test]
fn test_console_reporter_with_config() {
    let reporter = ConsoleReporter::with_config(false, 10);
    assert!(!reporter.show_progress);
    assert_eq!(reporter.update_interval_secs, 10);
}

#[test]
fn reporter_helpers() {
    assert_eq!(minutes_seconds(125), (2, 5));
    assert!(run_finished(0, 3));
    assert!(!run_finished(1, 3));
    assert!(!run_finished(0, 0));
    let parser = CsvParser::new("r.csv".to_string(), "v.csv".to_string());
    assert_eq!(parser.requests_csv_path, "r.csv");
    assert_eq!(get_dashboard_html_path(), "src/engine/reporters/live/templates/live.hbs");
    assert_eq!(get_dashboard_js_path(), "src/engine/reporters/live/templates/live.js");
}

#[test]
fn segment_names() {
    let id = run_id("My Load Test", "20240101_120000");
    assert_eq!(id, "My_Load_Test_20240101_120000");
    let dir = segments_dir("output", &id);
    assert_eq!(dir, "output/My_Load_Test_20240101_120000/segments");
    let path = segment_path(&dir, 3, "120002");
    assert_eq!(path, "output/My_Load_Test_20240101_120000/segments/segment_3_120002.parquet");
    assert_eq!(temp_path(&path), format!("{}.tmp", path));
}

#[test]
fn writer_batches_rotates_and_stops() {
    let mut w = SegmentWriter::new();
    for _ in 0..9 {
        let step = w.on_message(false, 0, 0);
        assert_eq!(step, WriterStep { write_batch: false, rotate: false, finish: false });
    }
    assert_eq!(w.buffered, 9);
    let step = w.on_message(false, 0, 2500);
    assert_eq!(step, WriterStep { write_batch: true, rotate: true, finish: false });
    assert_eq!(w.buffered, 0);
    assert_eq!(w.segment, 2);

    let step = w.on_message(false, 1000, 10);
    assert_eq!(step, WriterStep { write_batch: true, rotate: false, finish: false });

    w.on_message(false, 0, 0);
    let step = w.on_message(true, 0, 5000);
    assert_eq!(step, WriterStep { write_batch: true, rotate: false, finish: true });
    assert_eq!(w.buffered, 0);
    assert_eq!(w.segment, 2);
}
