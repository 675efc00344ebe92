use jsonl_messenger::{
    EmitError, JSONLineMessenger, MatchResult, Messager, OutputMode, PackagedWorkflowOutcome,
    SimpleLogMessage, VisibilityLevel,
};
use serde_json::Value;

fn text(s: &str) -> Value {
    Value::String(s.to_string())
}

fn sample(path: &str) -> MatchResult {
    let mut r = MatchResult::new();
    r.set("path".to_string(), text(path), true);
    r.set("matched_text".to_string(), text("foo(bar)"), true);
    r.set("full_ast".to_string(), text("(call (id) (args))"), false);
    r
}

fn lines(bytes: &[u8]) -> Vec<Value> {
    let s = std::str::from_utf8(bytes).unwrap();
    assert!(s.is_empty() || s.ends_with('\n'));
    s.lines().map(|l| serde_json::from_str::<Value>(l).unwrap()).collect()
}

fn all_levels() -> Vec<VisibilityLevel> {
    vec![
        VisibilityLevel::Debug,
        VisibilityLevel::Info,
        VisibilityLevel::Warn,
        VisibilityLevel::Error,
    ]
}

#[test]
fn filtered_results_leave_two_lines_in_call_order() {
    let mut sink = JSONLineMessenger::new(OutputMode::Full, VisibilityLevel::Info);
    assert_eq!(sink.emit(&sample("debug.js"), VisibilityLevel::Debug), Ok(()));
    assert_eq!(sink.emit(&sample("info.js"), VisibilityLevel::Info), Ok(()));
    assert_eq!(sink.emit(&sample("error.js"), VisibilityLevel::Error), Ok(()));
    let out = lines(sink.output());
    assert_eq!(out.len(), 2);
    assert_eq!(out[0]["path"], text("info.js"));
    assert_eq!(out[1]["path"], text("error.js"));
    for record in &out {
        assert_eq!(record["matched_text"], text("foo(bar)"));
        assert_eq!(record["full_ast"], text("(call (id) (args))"));
        assert_eq!(record.as_object().unwrap().len(), 3);
    }
}

#[test]
fn compact_mode_keeps_summary_fields_and_omits_the_rest() {
    let mut sink = JSONLineMessenger::new(OutputMode::Compact, VisibilityLevel::Debug);
    assert_eq!(sink.emit(&sample("a.js"), VisibilityLevel::Info), Ok(()));
    let out = lines(sink.output());
    assert_eq!(out.len(), 1);
    let object = out[0].as_object().unwrap();
    assert_eq!(object.len(), 2);
    assert_eq!(object.get("path"), Some(&text("a.js")));
    assert_eq!(object.get("matched_text"), Some(&text("foo(bar)")));
    assert!(object.get("full_ast").is_none());
}

#[test]
fn full_record_has_the_exact_bytes() {
    let mut sink = JSONLineMessenger::new(OutputMode::Full, VisibilityLevel::Debug);
    assert_eq!(sink.raw_emit(&sample("a.js")), Ok(()));
    let expected =
        "{\"full_ast\":\"(call (id) (args))\",\"matched_text\":\"foo(bar)\",\"path\":\"a.js\"}\n";
    assert_eq!(sink.output(), expected.as_bytes());
}

#[test]
fn compact_record_has_the_exact_bytes() {
    let mut sink = JSONLineMessenger::new(OutputMode::Compact, VisibilityLevel::Debug);
    assert_eq!(sink.raw_emit(&sample("a.js")), Ok(()));
    let expected = "{\"matched_text\":\"foo(bar)\",\"path\":\"a.js\"}\n";
    assert_eq!(sink.output(), expected.as_bytes());
}

#[test]
fn results_below_the_floor_write_nothing_and_succeed() {
    for mode in [OutputMode::Suppressed, OutputMode::Full, OutputMode::Compact] {
        for floor in all_levels() {
            for level in all_levels() {
                let mut sink = JSONLineMessenger::new(mode, floor);
                assert_eq!(sink.emit(&sample("a.js"), level), Ok(()));
                let admitted = level.rank() >= floor.rank();
                let wrote = !sink.output().is_empty();
                assert_eq!(wrote, admitted && mode != OutputMode::Suppressed);
            }
        }
    }
}

#[test]
fn dropped_results_leave_a_poisoned_sink_untouched() {
    let mut sink = JSONLineMessenger::new(OutputMode::Full, VisibilityLevel::Warn);
    sink.poison();
    assert_eq!(sink.emit(&sample("a.js"), VisibilityLevel::Info), Ok(()));
    assert_eq!(sink.emit(&sample("a.js"), VisibilityLevel::Warn), Err(EmitError::Internal));
    assert!(sink.output().is_empty());
}

#[test]
fn full_mode_appends_one_parseable_line_per_call() {
    let mut sink = JSONLineMessenger::new(OutputMode::Full, VisibilityLevel::Debug);
    let mut before = 0;
    for i in 0..5 {
        let name = format!("file{}.js", i);
        assert_eq!(sink.emit(&sample(&name), VisibilityLevel::Error), Ok(()));
        let out = sink.output().to_vec();
        let added = &out[before..];
        assert_eq!(added.iter().filter(|b| **b == b'\n').count(), 1);
        assert_eq!(added.last(), Some(&b'\n'));
        let record: Value = serde_json::from_slice(&added[..added.len() - 1]).unwrap();
        assert_eq!(record["path"], text(&name));
        before = out.len();
    }
    assert_eq!(lines(sink.output()).len(), 5);
}

#[test]
fn compact_record_is_within_the_full_record() {
    let mut item = MatchResult::new();
    item.set("path".to_string(), text("a.js"), true);
    item.set("range".to_string(), Value::Array(vec![Value::from(1), Value::from(7)]), true);
    item.set("content".to_string(), text("let x = 1;\nlet y = 2;"), false);
    item.set("debug".to_string(), Value::Null, false);
    let mut full = JSONLineMessenger::new(OutputMode::Full, VisibilityLevel::Debug);
    let mut compact = JSONLineMessenger::new(OutputMode::Compact, VisibilityLevel::Debug);
    assert_eq!(full.raw_emit(&item), Ok(()));
    assert_eq!(compact.raw_emit(&item), Ok(()));
    let full_record = lines(full.output()).remove(0);
    let compact_record = lines(compact.output()).remove(0);
    let full_object = full_record.as_object().unwrap();
    let compact_object = compact_record.as_object().unwrap();
    assert_eq!(full_object.len(), 4);
    assert_eq!(compact_object.len(), 2);
    for (key, value) in compact_object {
        assert_eq!(full_object.get(key), Some(value));
    }
}

#[test]
fn suppressed_mode_never_writes() {
    for level in all_levels() {
        let mut sink = JSONLineMessenger::new(OutputMode::Suppressed, VisibilityLevel::Debug);
        assert_eq!(sink.raw_emit(&sample("a.js")), Ok(()));
        assert_eq!(sink.emit(&sample("a.js"), level), Ok(()));
        assert!(sink.output().is_empty());
    }
}

#[test]
fn suppressed_mode_still_refuses_a_poisoned_guard() {
    let mut sink = JSONLineMessenger::new(OutputMode::Suppressed, VisibilityLevel::Debug);
    sink.poison();
    assert_eq!(sink.raw_emit(&sample("a.js")), Err(EmitError::Internal));
    assert!(sink.output().is_empty());
}

#[test]
fn empty_result_is_written_as_an_empty_object() {
    let mut full = JSONLineMessenger::new(OutputMode::Full, VisibilityLevel::Debug);
    assert_eq!(full.raw_emit(&MatchResult::new()), Ok(()));
    assert_eq!(full.output(), b"{}\n");
    let mut compact = JSONLineMessenger::new(OutputMode::Compact, VisibilityLevel::Debug);
    let mut item = MatchResult::new();
    item.set("full_ast".to_string(), text("(program)"), false);
    assert_eq!(compact.raw_emit(&item), Ok(()));
    assert_eq!(compact.output(), b"{}\n");
}

#[test]
fn line_breaks_in_values_stay_inside_one_line() {
    let mut sink = JSONLineMessenger::new(OutputMode::Full, VisibilityLevel::Debug);
    let mut item = MatchResult::new();
    item.set("content".to_string(), text("a\nb\r\nc"), true);
    assert_eq!(sink.raw_emit(&item), Ok(()));
    assert_eq!(sink.output(), b"{\"content\":\"a\\nb\\r\\nc\"}\n");
    assert_eq!(lines(sink.output())[0]["content"], text("a\nb\r\nc"));
}

#[test]
fn workflow_status_is_empty_before_the_first_report() {
    let sink = JSONLineMessenger::new(OutputMode::Full, VisibilityLevel::Debug);
    assert_eq!(sink.get_workflow_status(), Ok(None));
}

#[test]
fn finishing_twice_with_one_outcome_keeps_it() {
    let mut sink = JSONLineMessenger::new(OutputMode::Full, VisibilityLevel::Debug);
    let o = PackagedWorkflowOutcome::new("run-1".to_string(), true, Some("done".to_string()));
    assert_eq!(sink.finish_workflow(&o), Ok(()));
    assert_eq!(sink.get_workflow_status(), Ok(Some(&o)));
    assert_eq!(sink.finish_workflow(&o), Ok(()));
    assert_eq!(sink.get_workflow_status(), Ok(Some(&o)));
    assert!(sink.output().is_empty());
}

#[test]
fn later_outcome_replaces_the_earlier_one_whole() {
    let mut sink = JSONLineMessenger::new(OutputMode::Full, VisibilityLevel::Debug);
    let o1 = PackagedWorkflowOutcome::new("run-1".to_string(), true, Some("partial".to_string()));
    let o2 = PackagedWorkflowOutcome::new("run-1".to_string(), false, None);
    assert_eq!(sink.finish_workflow(&o1), Ok(()));
    assert_eq!(sink.finish_workflow(&o2), Ok(()));
    let held = sink.get_workflow_status().unwrap().unwrap();
    assert_eq!(held, &o2);
    assert_eq!(held.message, None);
    assert!(!held.success);
}

#[test]
fn workflow_reports_go_through_on_a_poisoned_or_closed_sink() {
    let mut sink = JSONLineMessenger::new(OutputMode::Full, VisibilityLevel::Debug);
    sink.poison();
    sink.close();
    let o = PackagedWorkflowOutcome::new("run-9".to_string(), false, None);
    assert_eq!(sink.finish_workflow(&o), Ok(()));
    assert_eq!(sink.get_workflow_status(), Ok(Some(&o)));
}

#[test]
fn log_lines_never_fail_and_never_reach_the_stream() {
    let mut sink = JSONLineMessenger::new(OutputMode::Full, VisibilityLevel::Info);
    let log = SimpleLogMessage::new("step 1 started".to_string());
    assert_eq!(sink.emit_log(&log), Ok(()));
    assert!(sink.output().is_empty());
    assert_eq!(sink.emit(&sample("a.js"), VisibilityLevel::Info), Ok(()));
    let before = sink.output().to_vec();
    assert_eq!(sink.emit_log(&log), Ok(()));
    assert_eq!(sink.output(), &before[..]);
    let o = PackagedWorkflowOutcome::new("run-1".to_string(), true, None);
    assert_eq!(sink.finish_workflow(&o), Ok(()));
    assert_eq!(sink.emit_log(&log), Ok(()));
    assert_eq!(sink.get_workflow_status(), Ok(Some(&o)));
    assert_eq!(sink.get_min_level(), VisibilityLevel::Info);
    sink.poison();
    assert_eq!(sink.emit_log(&log), Ok(()));
}

#[test]
fn new_sink_keeps_mode_and_floor() {
    for mode in [OutputMode::Suppressed, OutputMode::Full, OutputMode::Compact] {
        for floor in all_levels() {
            let sink = JSONLineMessenger::new(mode, floor);
            assert_eq!(sink.get_mode(), mode);
            assert_eq!(sink.get_min_level(), floor);
            assert!(!sink.is_poisoned());
            assert!(sink.output().is_empty());
            assert_eq!(sink.get_workflow_status(), Ok(None));
        }
    }
}

#[test]
fn mode_and_floor_stay_fixed_over_the_life_of_a_sink() {
    let mut sink = JSONLineMessenger::new(OutputMode::Compact, VisibilityLevel::Warn);
    let _ = sink.emit(&sample("a.js"), VisibilityLevel::Error);
    let _ = sink.take_output();
    sink.close();
    let _ = sink.emit(&sample("b.js"), VisibilityLevel::Error);
    sink.poison();
    let _ = sink.emit(&sample("c.js"), VisibilityLevel::Error);
    assert_eq!(sink.get_mode(), OutputMode::Compact);
    assert_eq!(sink.get_min_level(), VisibilityLevel::Warn);
}

#[test]
fn closed_sink_rejects_records_with_a_write_error() {
    let mut sink = JSONLineMessenger::new(OutputMode::Full, VisibilityLevel::Debug);
    assert_eq!(sink.raw_emit(&sample("a.js")), Ok(()));
    let before = sink.output().to_vec();
    sink.close();
    assert_eq!(sink.raw_emit(&sample("b.js")), Err(EmitError::Write));
    assert_eq!(sink.output(), &before[..]);
}

#[test]
fn full_sink_rejects_the_record_that_does_not_fit() {
    let mut sink = JSONLineMessenger::bounded(5, OutputMode::Full, VisibilityLevel::Debug);
    assert_eq!(sink.raw_emit(&MatchResult::new()), Ok(()));
    assert_eq!(sink.output(), b"{}\n");
    assert_eq!(sink.raw_emit(&MatchResult::new()), Err(EmitError::Write));
    assert_eq!(sink.output(), b"{}\n");
    let mut exact = JSONLineMessenger::bounded(6, OutputMode::Full, VisibilityLevel::Debug);
    assert_eq!(exact.raw_emit(&MatchResult::new()), Ok(()));
    assert_eq!(exact.raw_emit(&MatchResult::new()), Ok(()));
    assert_eq!(exact.output(), b"{}\n{}\n");
    assert_eq!(exact.raw_emit(&MatchResult::new()), Err(EmitError::Write));
}

#[test]
fn poisoned_sink_refuses_every_emission() {
    let mut sink = JSONLineMessenger::new(OutputMode::Full, VisibilityLevel::Debug);
    assert_eq!(sink.raw_emit(&sample("a.js")), Ok(()));
    let before = sink.output().to_vec();
    sink.poison();
    assert!(sink.is_poisoned());
    for _ in 0..3 {
        assert_eq!(sink.raw_emit(&sample("b.js")), Err(EmitError::Internal));
        assert_eq!(sink.emit(&sample("b.js"), VisibilityLevel::Error), Err(EmitError::Internal));
        assert_eq!(sink.write_record(b"{}"), Err(EmitError::Internal));
    }
    assert_eq!(sink.output(), &before[..]);
}

#[test]
fn write_record_frames_given_bytes() {
    let mut sink = JSONLineMessenger::new(OutputMode::Suppressed, VisibilityLevel::Error);
    assert_eq!(sink.write_record(b"{\"a\":1}"), Ok(()));
    assert_eq!(sink.write_record(b"[]"), Ok(()));
    assert_eq!(sink.output(), b"{\"a\":1}\n[]\n");
}

#[test]
fn write_record_rejects_bytes_that_are_not_one_line() {
    let mut sink = JSONLineMessenger::new(OutputMode::Full, VisibilityLevel::Debug);
    assert_eq!(sink.write_record(b""), Err(EmitError::Serialize));
    assert_eq!(sink.write_record(b"{\n}"), Err(EmitError::Serialize));
    assert_eq!(sink.write_record(b"{}\n"), Err(EmitError::Serialize));
    assert!(sink.output().is_empty());
    sink.close();
    assert_eq!(sink.write_record(b""), Err(EmitError::Serialize));
    assert_eq!(sink.write_record(b"{}"), Err(EmitError::Write));
}

#[test]
fn take_output_hands_over_the_lines_and_empties_the_stream() {
    let mut sink = JSONLineMessenger::new(OutputMode::Compact, VisibilityLevel::Debug);
    assert_eq!(sink.raw_emit(&sample("a.js")), Ok(()));
    let first = sink.take_output();
    assert_eq!(lines(&first).len(), 1);
    assert!(sink.output().is_empty());
    assert_eq!(sink.raw_emit(&sample("b.js")), Ok(()));
    let second = sink.take_output();
    assert_eq!(lines(&second)[0]["path"], text("b.js"));
    assert!(sink.take_output().is_empty());
}

#[test]
fn producers_taking_turns_leave_whole_lines() {
    let producers: usize = 4;
    let per_producer: usize = 25;
    let sink = std::sync::Mutex::new(JSONLineMessenger::new(
        OutputMode::Full,
        VisibilityLevel::Debug,
    ));
    for i in 0..per_producer {
        for p in 0..producers {
            let item = sample(&format!("p{}-{}.js", p, i));
            let mut guard = sink.lock().unwrap();
            assert_eq!(guard.emit(&item, VisibilityLevel::Info), Ok(()));
        }
    }
    let guard = sink.lock().unwrap();
    let out = lines(guard.output());
    assert_eq!(out.len(), producers * per_producer);
    let mut seen: Vec<String> =
        out.iter().map(|r| r["path"].as_str().unwrap().to_string()).collect();
    seen.sort();
    seen.dedup();
    assert_eq!(seen.len(), producers * per_producer);
    for record in &out {
        assert_eq!(record.as_object().unwrap().len(), 3);
    }
    let breaks = guard.output().iter().filter(|b| **b == b'\n').count();
    assert_eq!(breaks, producers * per_producer);
}

#[test]
fn error_descriptions_tell_the_kinds_apart() {
    assert_eq!(EmitError::Serialize.describe(), "result could not be serialized");
    assert_eq!(EmitError::Write.describe(), "stream rejected the write");
    assert_eq!(EmitError::Internal.describe(), "stream guard is poisoned");
}
