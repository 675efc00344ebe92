use jsonl_messenger::{PackagedWorkflowOutcome, SimpleLogMessage, StatusManager};

fn outcome(run: &str, success: bool, message: Option<&str>) -> PackagedWorkflowOutcome {
    PackagedWorkflowOutcome::new(run.to_string(), success, message.map(|m| m.to_string()))
}

#[test]
fn new_manager_holds_nothing() {
    let m = StatusManager::new();
    assert_eq!(m.get_workflow_status(), None);
}

#[test]
fn first_report_is_held() {
    let mut m = StatusManager::new();
    let o = outcome("run-1", true, Some("ok"));
    m.upsert(&o);
    assert_eq!(m.get_workflow_status(), Some(&o));
}

#[test]
fn same_report_twice_changes_nothing() {
    let mut m = StatusManager::new();
    let o = outcome("run-1", false, Some("failed at step 2"));
    m.upsert(&o);
    m.upsert(&o);
    assert_eq!(m.get_workflow_status(), Some(&o));
}

#[test]
fn latest_report_wins_without_merging() {
    let mut m = StatusManager::new();
    let rich = outcome("run-1", true, Some("all steps done"));
    let poor = outcome("run-2", false, None);
    m.upsert(&rich);
    m.upsert(&poor);
    let held = m.get_workflow_status().unwrap();
    assert_eq!(held.run_id, "run-2");
    assert!(!held.success);
    assert_eq!(held.message, None);
    m.upsert(&rich);
    assert_eq!(m.get_workflow_status(), Some(&rich));
}

#[test]
fn outcome_clone_is_the_same_outcome() {
    let o = outcome("run-7", true, Some("done"));
    let c = o.clone();
    assert_eq!(o, c);
    assert_eq!(c.run_id, "run-7");
    assert_eq!(c.message, Some("done".to_string()));
    let n = outcome("run-8", false, None);
    assert_eq!(n.clone(), n);
}

#[test]
fn log_message_keeps_its_text() {
    let log = SimpleLogMessage::new("pattern compiled".to_string());
    assert_eq!(log.message, "pattern compiled");
}
