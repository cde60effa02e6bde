use uptime_core::check::make_check;
use uptime_core::status::{Classification, Status};
use uptime_core::store::Store;
use uptime_core::sweep::{run_sweep, run_sweep_now};

fn outcome(reachable: bool) -> Classification {
    Classification {
        reachable,
        http_status: if reachable { Some(200) } else { None },
        latency_ms: if reachable { Some(20) } else { None },
        error: if reachable { None } else { Some("connection refused".to_string()) },
    }
}

fn store_with(checks: Vec<(&str, &str, &str, bool)>) -> Store {
    let mut store = Store::new();
    for (id, name, url, active) in checks {
        let mut c = make_check(id.to_string(), name.to_string(), url.to_string(), 30, None)
            .unwrap();
        c.is_active = active;
        assert!(store.add_check(c));
    }
    store
}

fn timestamps(n: usize, label: &str) -> Vec<String> {
    (0..n).map(|k| format!("2024-01-01T00:00:0{k}+00:00/{label}")).collect()
}

#[test]
fn unreachable_target_records_down_and_alerts() {
    // Sweep 1 against an unreachable target: one DOWN row, one alert for
    // the UNKNOWN -> DOWN transition, cached status DOWN.
    let mut store = store_with(vec![("c1", "api", "http://a.example", true)]);
    let alerts = run_sweep(&mut store, &vec![outcome(false)], &timestamps(1, "s1"));

    assert_eq!(store.results.len(), 1);
    assert_eq!(store.results[0].status, Status::Down);
    assert_eq!(store.results[0].check_id, "c1");
    assert_eq!(store.results[0].error.as_deref(), Some("connection refused"));
    assert_eq!(alerts.len(), 1);
    assert_eq!(alerts[0].previous, Status::Unknown);
    assert_eq!(alerts[0].new_status, Status::Down);
    assert_eq!(alerts[0].check_name, "api");
    assert_eq!(alerts[0].url, "http://a.example");
    assert_eq!(store.checks[0].last_status, Status::Down);
}

#[test]
fn reachable_twice_alerts_only_once() {
    // Reachable on both sweeps: two UP rows, one alert (UNKNOWN -> UP on
    // the first sweep), none on the second.
    let mut store = store_with(vec![("c1", "api", "http://a.example", true)]);
    let first = run_sweep(&mut store, &vec![outcome(true)], &timestamps(1, "s1"));
    let second = run_sweep(&mut store, &vec![outcome(true)], &timestamps(1, "s2"));

    assert_eq!(store.results.len(), 2);
    assert_eq!(store.results[0].status, Status::Up);
    assert_eq!(store.results[1].status, Status::Up);
    assert_eq!(first.len(), 1);
    assert_eq!(first[0].previous, Status::Unknown);
    assert_eq!(first[0].new_status, Status::Up);
    assert_eq!(second.len(), 0);
    assert_eq!(store.checks[0].last_status, Status::Up);
}

#[test]
fn rows_after_n_sweeps() {
    // One active and one inactive check: after 3 sweeps the history holds
    // 3 x 1 rows, all for the active check.
    let mut store = store_with(vec![
        ("c1", "api", "http://a.example", true),
        ("c2", "db", "http://b.example", false),
    ]);
    for sweep in 0..3usize {
        let label = format!("s{sweep}");
        run_sweep(&mut store, &vec![outcome(true), outcome(true)], &timestamps(2, &label));
    }
    assert_eq!(store.results.len(), 3);
    for row in &store.results {
        assert_eq!(row.check_id, "c1");
    }
    // The inactive check was never touched.
    assert_eq!(store.checks[1].last_status, Status::Unknown);
    assert!(store.checks[1].last_checked_at.is_none());
}

#[test]
fn last_status_matches_most_recent_row() {
    // Flap UP -> DOWN -> UP; after every sweep the cached status equals
    // the status of the most recently inserted row.
    let mut store = store_with(vec![("c1", "api", "http://a.example", true)]);
    for (sweep, reachable) in [true, false, true].into_iter().enumerate() {
        let label = format!("s{sweep}");
        run_sweep(&mut store, &vec![outcome(reachable)], &timestamps(1, &label));
        let last_row = store.results.last().unwrap();
        assert_eq!(store.checks[0].last_status, last_row.status);
        assert_eq!(last_row.check_id, "c1");
    }
    assert_eq!(store.results.len(), 3);
    assert_eq!(store.results[1].status, Status::Down);
}

#[test]
fn result_ids_increase_monotonically() {
    let mut store = store_with(vec![
        ("c1", "api", "http://a.example", true),
        ("c2", "db", "http://b.example", true),
    ]);
    for sweep in 0..2usize {
        let label = format!("s{sweep}");
        run_sweep(&mut store, &vec![outcome(true), outcome(false)], &timestamps(2, &label));
    }
    assert_eq!(store.results.len(), 4);
    for pair in store.results.windows(2) {
        assert!(pair[0].id < pair[1].id);
    }
}

#[test]
fn alert_delivery_failure_does_not_affect_recording() {
    // The recorder's writes stand whatever happens to the alerts: dropping
    // them (a failed notification transport) leaves the row and the cached
    // status in place.
    let mut store = store_with(vec![("c1", "api", "http://a.example", true)]);
    let alerts = run_sweep(&mut store, &vec![outcome(false)], &timestamps(1, "s1"));
    drop(alerts);  // the transport failed; nobody retries
    assert_eq!(store.results.len(), 1);
    assert_eq!(store.results[0].status, Status::Down);
    assert_eq!(store.checks[0].last_status, Status::Down);
}

#[test]
fn sweep_now_stamps_real_timestamps() {
    let mut store = store_with(vec![("c1", "api", "http://a.example", true)]);
    let alerts = run_sweep_now(&mut store, &vec![outcome(true)]);
    assert_eq!(alerts.len(), 1);
    assert_eq!(store.results.len(), 1);
    assert!(!store.results[0].checked_at.is_empty());
    assert_eq!(store.checks[0].last_checked_at, Some(store.results[0].checked_at.clone()));
}

#[test]
fn results_for_lists_newest_first() {
    let mut store = store_with(vec![
        ("c1", "api", "http://a.example", true),
        ("c2", "db", "http://b.example", true),
    ]);
    for (sweep, reachable) in [true, false, true].into_iter().enumerate() {
        let label = format!("s{sweep}");
        run_sweep(&mut store, &vec![outcome(reachable), outcome(true)], &timestamps(2, &label));
    }
    let history = store.results_for(&"c1".to_string());
    assert_eq!(history.len(), 3);
    assert_eq!(history[0].status, Status::Up);
    assert_eq!(history[1].status, Status::Down);
    assert_eq!(history[2].status, Status::Up);
    // Newest first: ids descend.
    assert!(history[0].id > history[1].id && history[1].id > history[2].id);
    for row in &history {
        assert_eq!(row.check_id, "c1");
    }
}

#[test]
fn sweep_of_empty_table_does_nothing() {
    let mut store = Store::new();
    let alerts = run_sweep(&mut store, &Vec::new(), &Vec::new());
    assert!(alerts.is_empty());
    assert!(store.results.is_empty());
    assert_eq!(store.next_result_id, 0);
}

#[test]
fn surrogate_keys_continue_from_next_result_id() {
    let mut store = store_with(vec![("c1", "api", "http://a.example", true)]);
    store.next_result_id = u64::MAX - 1;
    let alerts = run_sweep(&mut store, &vec![outcome(true)], &timestamps(1, "s1"));
    assert_eq!(alerts.len(), 1);
    assert_eq!(store.results[0].id, u64::MAX - 1);
    assert_eq!(store.next_result_id, u64::MAX);
}

#[test]
fn duplicate_check_id_is_rejected() {
    let mut store = Store::new();
    let a = make_check("c1".to_string(), "a".to_string(), "http://a".to_string(), 30, None)
        .unwrap();
    let b = make_check("c1".to_string(), "b".to_string(), "http://b".to_string(), 30, None)
        .unwrap();
    assert!(store.add_check(a));
    assert!(!store.add_check(b));
    assert_eq!(store.checks.len(), 1);
    assert_eq!(store.checks[0].name, "a");
}
