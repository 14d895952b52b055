use transducer_agent::capture::{Capture, CaptureEvent, CaptureStep, ProgressCapture};
use transducer_agent::progress::{
    announced_text, copy_texts, estimated_progress, ProgressReporter, COMPLETE_PROGRESS,
    REPORT_INTERVAL_NANOS, RUNNING_PROGRESS_LIMIT,
};

fn reporter() -> ProgressReporter {
    ProgressReporter::new("agent-1".to_string(), "work-1".to_string(), 0)
}

fn files_after(lines: &[&str]) -> Vec<String> {
    let mut reporter = reporter();
    for line in lines {
        reporter.parse_line(line);
    }
    reporter.get_files_modified()
}

#[test]
fn lines_that_announce_files_are_understood() {
    assert_eq!(files_after(&["Wrote 42 lines to src/main.rs"]), vec!["src/main.rs"]);
    assert_eq!(files_after(&["Writing 3 lines to a.txt"]), vec!["a.txt"]);
    assert_eq!(files_after(&["Edited src/lib.rs  "]), vec!["src/lib.rs"]);
    assert_eq!(files_after(&["Edit: src/lib.rs"]), vec!["src/lib.rs"]);
    assert_eq!(files_after(&["Created docs/new"]), vec!["docs/new"]);
    assert_eq!(files_after(&["Modified\u{20}Cargo.toml\t"]), vec!["Cargo.toml"]);
}

#[test]
fn the_first_marker_counts() {
    assert_eq!(files_after(&["Wrote this to that to a.rs"]), vec!["that to a.rs"]);
    assert_eq!(announced_text("Wrote this to that to a.rs"), Some("that to a.rs".to_string()));
}

#[test]
fn other_lines_announce_nothing() {
    assert!(files_after(&[
        "wrote 1 line to a.rs",
        " Edited a.rs",
        "Wrote 42 lines",
        "Edited nothing",
        "Created ",
        "Editing a.rs",
        "",
    ])
    .is_empty());
    assert_eq!(announced_text("Edited nothing"), Some("nothing".to_string()));
    assert_eq!(announced_text("Wrote 42 lines"), None);
    assert_eq!(announced_text("hello"), None);
}

#[test]
fn files_are_listed_once_and_in_order() {
    assert_eq!(
        files_after(&["Edited b.rs", "Edited a.rs", "Created b.rs", "Modified a.rs", "Edited c.rs"]),
        vec!["b.rs", "a.rs", "c.rs"]
    );
    let mut reporter = reporter();
    reporter.track_file("x".to_string());
    reporter.track_file("x".to_string());
    assert_eq!(reporter.get_files_modified(), vec!["x"]);
}

#[test]
fn texts_are_copied() {
    let texts = vec!["a".to_string(), "b".to_string()];
    assert_eq!(copy_texts(&texts), texts);
}

#[test]
fn progress_is_estimated_by_lines() {
    assert_eq!(estimated_progress(0), 0);
    assert_eq!(estimated_progress(1), 1);
    assert_eq!(estimated_progress(9_499), 9_499);
    assert_eq!(estimated_progress(9_500), 9_500);
    assert_eq!(estimated_progress(u32::MAX), 9_500);
    assert_eq!(RUNNING_PROGRESS_LIMIT as f32 / 100.0, 95.0);
    assert_eq!(COMPLETE_PROGRESS as f32 / 100.0, 100.0);
}

#[test]
fn reports_are_ten_seconds_apart() {
    let mut reporter = reporter();
    reporter.track_file("a.rs".to_string());
    assert_eq!(REPORT_INTERVAL_NANOS, 10_000_000_000);
    assert!(reporter.maybe_report(9_999_999_999, 7, "early").is_none());
    let report = reporter.maybe_report(10_000_000_000, 8, "now").unwrap();
    assert_eq!(report.transducer_id, "agent-1");
    assert_eq!(report.assignment_id, "work-1");
    assert_eq!(report.progress, 8);
    assert_eq!(report.status_message, "now");
    assert_eq!(report.files_modified, vec!["a.rs"]);
    assert!(reporter.maybe_report(19_999_999_999, 9, "early").is_none());
    assert!(reporter.maybe_report(20_000_000_000, 9, "now").is_some());
    assert!(reporter.maybe_report(0, 9, "earlier than the last").is_none());
}

#[test]
fn capture_keeps_the_streams_apart() {
    let mut capture = Capture::new();
    assert!(capture.on_event(&CaptureEvent::StdoutLine("a".to_string())));
    assert!(capture.on_event(&CaptureEvent::StderrLine("x".to_string())));
    assert!(capture.on_event(&CaptureEvent::StderrClosed));
    assert!(capture.on_event(&CaptureEvent::StderrFailed));
    assert!(capture.on_event(&CaptureEvent::StdoutLine("".to_string())));
    assert!(capture.on_event(&CaptureEvent::StdoutLine("b".to_string())));
    assert!(!capture.on_event(&CaptureEvent::StdoutClosed));
    assert_eq!(capture.output, "a\n\nb\n");
    assert_eq!(capture.errors, "x\n");
}

#[test]
fn capture_does_not_depend_on_the_interleaving() {
    let mut one = Capture::new();
    let mut other = Capture::new();
    one.on_event(&CaptureEvent::StdoutLine("a".to_string()));
    one.on_event(&CaptureEvent::StdoutLine("b".to_string()));
    one.on_event(&CaptureEvent::StderrLine("x".to_string()));
    other.on_event(&CaptureEvent::StderrLine("x".to_string()));
    other.on_event(&CaptureEvent::StdoutLine("a".to_string()));
    other.on_event(&CaptureEvent::StdoutLine("b".to_string()));
    assert_eq!(one.output, other.output);
    assert_eq!(one.errors, other.errors);
}

#[test]
fn standard_error_is_captured_after_standard_output_is_over() {
    let mut capture = Capture::new();
    assert!(capture.on_event(&CaptureEvent::StdoutLine("a".to_string())));
    assert!(capture.on_event(&CaptureEvent::StdoutClosed));
    assert!(capture.stdout_over && !capture.stderr_over);
    assert!(capture.on_event(&CaptureEvent::StderrLine("late".to_string())));
    assert!(capture.on_event(&CaptureEvent::StderrLine("later".to_string())));
    assert!(!capture.on_event(&CaptureEvent::StderrClosed));
    assert_eq!(capture.output, "a\n");
    assert_eq!(capture.errors, "late\nlater\n");
}

#[test]
fn streams_that_fail_are_over() {
    let mut capture = Capture::new();
    assert!(capture.on_event(&CaptureEvent::StdoutFailed));
    assert!(!capture.on_event(&CaptureEvent::StderrFailed));
    assert_eq!(capture.output, "");
    assert_eq!(capture.errors, "");
}

#[test]
fn progress_capture_reports_on_the_line_itself() {
    let mut capture = ProgressCapture::new(reporter());
    match capture.on_event(&CaptureEvent::StdoutLine("hello".to_string()), 1) {
        CaptureStep::Continue(report) => assert!(report.is_none()),
        CaptureStep::Finished => panic!("the capture goes on"),
    }
    match capture.on_event(&CaptureEvent::StderrLine("x".to_string()), 30_000_000_000) {
        CaptureStep::Continue(report) => assert!(report.is_none()),
        CaptureStep::Finished => panic!("the capture goes on"),
    }
    match capture.on_event(
        &CaptureEvent::StdoutLine("Edited src/a.rs".to_string()),
        30_000_000_000,
    ) {
        CaptureStep::Continue(Some(report)) => {
            assert_eq!(report.progress, 2);
            assert_eq!(report.status_message, "Edited src/a.rs");
            assert_eq!(report.files_modified, vec!["src/a.rs"]);
        }
        _ => panic!("a report is due"),
    }
    assert_eq!(capture.line_count, 2);
    assert!(matches!(
        capture.on_event(&CaptureEvent::StdoutClosed, 31_000_000_000),
        CaptureStep::Continue(None)
    ));
    assert!(matches!(
        capture.on_event(&CaptureEvent::StderrLine("y".to_string()), 31_000_000_000),
        CaptureStep::Continue(None)
    ));
    assert!(matches!(
        capture.on_event(&CaptureEvent::StderrClosed, 31_000_000_000),
        CaptureStep::Finished
    ));
    assert!(capture.finish(39_999_999_999).is_none());
    let report = capture.finish(40_000_000_000).unwrap();
    assert_eq!(report.progress, COMPLETE_PROGRESS);
    assert_eq!(report.status_message, "Execution complete");
    assert_eq!(capture.capture.output, "hello\nEdited src/a.rs\n");
    assert_eq!(capture.capture.errors, "x\ny\n");
    assert_eq!(capture.reporter.get_files_modified(), vec!["src/a.rs"]);
}
