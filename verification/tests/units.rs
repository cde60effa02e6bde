use uptime_core::alert::{compose_alert_message, status_from_label, status_label, Alert};
use uptime_core::check::{make_check, register_check, RegisterError};
use uptime_core::migrate::split_sql_statements;
use uptime_core::scheduler::{
    scheduler_step, SchedulerAction, SchedulerEvent, SchedulerState, LOAD_BACKOFF_SECONDS,
    SWEEP_INTERVAL_SECONDS,
};
use uptime_core::status::{classify_probe, decide, Classification, Status};

fn classification(reachable: bool) -> Classification {
    Classification { reachable, http_status: None, latency_ms: None, error: None }
}

#[test]
fn decide_first_probe_up() {
    let (status, changed) = decide(Status::Unknown, &classification(true));
    assert_eq!(status, Status::Up);
    assert!(changed);
}

#[test]
fn decide_first_probe_down() {
    let (status, changed) = decide(Status::Unknown, &classification(false));
    assert_eq!(status, Status::Down);
    assert!(changed);
}

#[test]
fn decide_steady_up() {
    let (status, changed) = decide(Status::Up, &classification(true));
    assert_eq!(status, Status::Up);
    assert!(!changed);
}

#[test]
fn decide_up_to_down() {
    let (status, changed) = decide(Status::Up, &classification(false));
    assert_eq!(status, Status::Down);
    assert!(changed);
}

#[test]
fn decide_steady_down() {
    let (status, changed) = decide(Status::Down, &classification(false));
    assert_eq!(status, Status::Down);
    assert!(!changed);
}

#[test]
fn decide_down_to_up() {
    let (status, changed) = decide(Status::Down, &classification(true));
    assert_eq!(status, Status::Up);
    assert!(changed);
}

#[test]
fn decide_is_deterministic() {
    // Replaying the same decision yields the same output: pure function.
    for previous in [Status::Unknown, Status::Up, Status::Down] {
        for reachable in [true, false] {
            let first = decide(previous, &classification(reachable));
            let second = decide(previous, &classification(reachable));
            assert_eq!(first, second);
        }
    }
}

#[test]
fn http_error_status_still_counts_as_reachable() {
    // A 500 response is still "reachable": only transport failure is DOWN.
    let c = classify_probe(true, Some(500), Some(12), None);
    assert!(c.reachable);
    let (status, _) = decide(Status::Up, &c);
    assert_eq!(status, Status::Up);
}

#[test]
fn transport_failure_is_unreachable_with_error() {
    let c = classify_probe(false, None, None, Some("timeout".to_string()));
    assert!(!c.reachable);
    assert_eq!(c.error.as_deref(), Some("timeout"));
    let (status, changed) = decide(Status::Up, &c);
    assert_eq!(status, Status::Down);
    assert!(changed);
}

#[test]
fn register_rejects_short_interval() {
    let r = register_check("api".to_string(), "http://a.example".to_string(), 5, None);
    assert!(matches!(r, Err(RegisterError::IntervalTooSmall)));
}

#[test]
fn register_accepts_minimum_interval() {
    let r = register_check("api".to_string(), "http://a.example".to_string(), 10, None);
    assert!(r.is_ok());
}

#[test]
fn register_accepts_and_assigns_unique_ids() {
    let a = register_check("a".to_string(), "http://a.example".to_string(), 30, None).unwrap();
    let b = register_check("b".to_string(), "http://b.example".to_string(), 30, None).unwrap();
    assert_eq!(a.id.len(), 36);
    assert_eq!(b.id.len(), 36);
    assert_ne!(a.id, b.id);
    assert!(a.is_active);
    assert_eq!(a.last_status, Status::Unknown);
    assert!(a.last_checked_at.is_none());
    assert_eq!(a.interval_seconds, 30);
}

#[test]
fn make_check_keeps_fields() {
    let c = make_check(
        "id-1".to_string(),
        "db".to_string(),
        "http://db.example".to_string(),
        60,
        Some("ops@example.com".to_string()),
    )
    .unwrap();
    assert_eq!(c.id, "id-1");
    assert_eq!(c.name, "db");
    assert_eq!(c.url, "http://db.example");
    assert_eq!(c.interval_seconds, 60);
    assert_eq!(c.alert_email.as_deref(), Some("ops@example.com"));
}

#[test]
fn status_labels_round_trip() {
    for s in [Status::Unknown, Status::Up, Status::Down] {
        let label = status_label(s).to_string();
        assert_eq!(status_from_label(&label), Some(s));
    }
    assert_eq!(status_from_label(&"bogus".to_string()), None);
}

#[test]
fn alert_message_contents() {
    let a = Alert {
        check_name: "api".to_string(),
        previous: Status::Unknown,
        new_status: Status::Down,
        url: "http://a.example".to_string(),
    };
    let msg = compose_alert_message(&a);
    assert_eq!(msg, "Uptime Alert\napi\nUNKNOWN -> DOWN\nhttp://a.example");
}

#[test]
fn scheduler_load_failure_backs_off_then_retries() {
    let (state, action) = scheduler_step(SchedulerState::Loading, SchedulerEvent::LoadFailed);
    assert_eq!(state, SchedulerState::Sleeping);
    assert_eq!(action, Some(SchedulerAction::Sleep(LOAD_BACKOFF_SECONDS)));
    let (state, action) = scheduler_step(state, SchedulerEvent::SleepElapsed);
    assert_eq!(state, SchedulerState::Loading);
    assert_eq!(action, Some(SchedulerAction::LoadChecks));
}

#[test]
fn scheduler_happy_path_cycle() {
    let (state, action) = scheduler_step(SchedulerState::Loading, SchedulerEvent::LoadSucceeded);
    assert_eq!(state, SchedulerState::Probing);
    assert_eq!(action, Some(SchedulerAction::BeginProbing));
    let (state, action) = scheduler_step(state, SchedulerEvent::SweepFinished);
    assert_eq!(state, SchedulerState::Sleeping);
    assert_eq!(action, Some(SchedulerAction::Sleep(SWEEP_INTERVAL_SECONDS)));
    let (state, action) = scheduler_step(state, SchedulerEvent::SleepElapsed);
    assert_eq!(state, SchedulerState::Loading);
    assert_eq!(action, Some(SchedulerAction::LoadChecks));
}

#[test]
fn scheduler_ignores_stray_events() {
    let (state, action) = scheduler_step(SchedulerState::Loading, SchedulerEvent::SleepElapsed);
    assert_eq!(state, SchedulerState::Loading);
    assert_eq!(action, None);
}

fn statements(script: &str) -> Vec<String> {
    split_sql_statements(script.as_bytes())
        .into_iter()
        .map(|s| String::from_utf8(s).unwrap())
        .collect()
}

#[test]
fn sql_split_basic() {
    assert_eq!(
        statements("CREATE TABLE a (x INT);\nCREATE TABLE b (y INT);\n"),
        vec!["CREATE TABLE a (x INT)".to_string(), "CREATE TABLE b (y INT)".to_string()],
    );
}

#[test]
fn sql_split_drops_empty_pieces() {
    assert_eq!(statements("  ;  ; \n"), Vec::<String>::new());
    assert_eq!(statements(""), Vec::<String>::new());
    assert_eq!(statements(";;SELECT 1;;"), vec!["SELECT 1".to_string()]);
}

#[test]
fn sql_split_trims_whitespace() {
    assert_eq!(
        statements("\n  SELECT 1  ;\t SELECT 2 "),
        vec!["SELECT 1".to_string(), "SELECT 2".to_string()],
    );
}
