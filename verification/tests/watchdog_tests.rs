use edgelet_core::module::{ModuleSpec, ModuleState};
use edgelet_core::watchdog::{
    plan_for, start_watchdog, Plan, PollOutcome, RunOutcome, Watchdog, WatchdogConfig,
    WatchdogEvent,
};

fn spec() -> ModuleSpec {
    ModuleSpec {
        name: "edgeAgent".to_string(),
        image: "agent:1.0".to_string(),
        config: "{}".to_string(),
        restart_policy: true,
    }
}

fn poll(observed: Option<ModuleState>, identity_ok: bool, create_ok: bool, start_ok: bool) -> WatchdogEvent {
    WatchdogEvent::Poll(PollOutcome { observed, identity_ok, create_ok, start_ok })
}

fn poll_running() -> WatchdogEvent {
    poll(Some(ModuleState::Running), true, true, true)
}

fn poll_failing() -> WatchdogEvent {
    poll(Some(ModuleState::NotFound), true, false, true)
}

#[test]
fn running_module_needs_no_calls() {
    let events = vec![poll_running(), poll_running(), poll_running(), poll_running()];
    let report = Watchdog::new(1000, None).run_until(spec(), "edgeAgent", &events);
    assert_eq!(report.outcome, RunOutcome::StillSupervising);
    assert_eq!(report.log.len(), 4);
    for calls in &report.log {
        assert!(!calls.identity);
        assert!(!calls.created);
        assert!(!calls.started);
        assert!(!calls.failed);
    }
}

#[test]
fn missing_module_is_created_and_started_once() {
    let events = vec![
        poll(Some(ModuleState::NotFound), true, true, true),
        poll_running(),
        poll_running(),
    ];
    let report = Watchdog::new(1000, None).run_until(spec(), "edgeAgent", &events);
    assert_eq!(report.outcome, RunOutcome::StillSupervising);
    let creates: usize = report.log.iter().filter(|c| c.created).count();
    let starts: usize = report.log.iter().filter(|c| c.started).count();
    assert_eq!(creates, 1);
    assert_eq!(starts, 1);
    assert!(report.log[0].identity && report.log[0].created && report.log[0].started);
    assert!(!report.log[0].failed);
}

#[test]
fn failed_module_is_recreated() {
    let events = vec![
        poll(Some(ModuleState::Failed("oom".to_string())), true, true, true),
        poll_running(),
    ];
    let report = Watchdog::new(1000, None).run_until(spec(), "edgeAgent", &events);
    assert_eq!(report.outcome, RunOutcome::StillSupervising);
    assert!(report.log[0].identity && report.log[0].created && report.log[0].started);
}

#[test]
fn stopped_module_is_only_started() {
    let events = vec![poll(Some(ModuleState::Stopped), true, true, true), poll_running()];
    let report = Watchdog::new(1000, None).run_until(spec(), "edgeAgent", &events);
    assert!(!report.log[0].identity);
    assert!(!report.log[0].created);
    assert!(report.log[0].started);
    assert!(!report.log[0].failed);
}

#[test]
fn created_module_is_only_started() {
    let events = vec![poll(Some(ModuleState::Created), true, true, true)];
    let report = Watchdog::new(1000, None).run_until(spec(), "edgeAgent", &events);
    assert!(!report.log[0].created);
    assert!(report.log[0].started);
}

#[test]
fn identity_failure_blocks_creation_for_the_iteration() {
    let events = vec![poll(Some(ModuleState::NotFound), false, true, true)];
    let report = Watchdog::new(1000, None).run_until(spec(), "edgeAgent", &events);
    assert_eq!(report.outcome, RunOutcome::StillSupervising);
    assert!(report.log[0].identity);
    assert!(!report.log[0].created);
    assert!(!report.log[0].started);
    assert!(report.log[0].failed);
}

#[test]
fn state_query_failure_counts_as_transient_failure() {
    let events = vec![poll(None, true, true, true)];
    let report = Watchdog::new(1000, None).run_until(spec(), "edgeAgent", &events);
    assert!(!report.log[0].identity);
    assert!(!report.log[0].created);
    assert!(!report.log[0].started);
    assert!(report.log[0].failed);
}

#[test]
fn shutdown_ends_the_loop_with_no_further_calls() {
    let events = vec![
        poll_running(),
        WatchdogEvent::Shutdown,
        poll(Some(ModuleState::NotFound), true, true, true),
        poll_failing(),
    ];
    let report = Watchdog::new(1000, None).run_until(spec(), "edgeAgent", &events);
    assert_eq!(report.outcome, RunOutcome::ShutdownObserved);
    assert_eq!(report.log.len(), 1);
    assert!(!report.log[0].created && !report.log[0].started);
}

#[test]
fn shutdown_as_first_event_exits_immediately() {
    let events = vec![WatchdogEvent::Shutdown, poll_failing()];
    let report = Watchdog::new(50, Some(1)).run_until(spec(), "edgeAgent", &events);
    assert_eq!(report.outcome, RunOutcome::ShutdownObserved);
    assert_eq!(report.log.len(), 0);
}

#[test]
fn retries_exhaust_after_exactly_the_limit() {
    let events = vec![poll_failing(), poll_failing(), poll_failing(), poll_failing(), poll_failing()];
    let report = Watchdog::new(1000, Some(3)).run_until(spec(), "edgeAgent", &events);
    assert_eq!(report.outcome, RunOutcome::RetriesExhausted);
    assert_eq!(report.log.len(), 3);
    for calls in &report.log {
        assert!(calls.failed);
    }
}

#[test]
fn a_success_resets_the_consecutive_failure_count() {
    let events = vec![poll_failing(), poll_running(), poll_failing(), poll_running()];
    let report = Watchdog::new(1000, Some(2)).run_until(spec(), "edgeAgent", &events);
    assert_eq!(report.outcome, RunOutcome::StillSupervising);
    assert_eq!(report.log.len(), 4);
}

#[test]
fn unbounded_retries_never_exhaust() {
    let events = vec![poll_failing(), poll_failing(), poll_failing(), poll_failing()];
    let report = Watchdog::new(1000, None).run_until(spec(), "edgeAgent", &events);
    assert_eq!(report.outcome, RunOutcome::StillSupervising);
    assert_eq!(report.log.len(), 4);
}

#[test]
fn start_failure_after_create_counts_as_failure() {
    let events = vec![poll(Some(ModuleState::NotFound), true, true, false)];
    let report = Watchdog::new(1000, None).run_until(spec(), "edgeAgent", &events);
    assert!(report.log[0].identity && report.log[0].created && report.log[0].started);
    assert!(report.log[0].failed);
}

#[test]
fn the_plan_follows_the_reported_state() {
    assert_eq!(plan_for(&ModuleState::Running), Plan::DoNothing);
    assert_eq!(plan_for(&ModuleState::NotFound), Plan::CreateAndStart);
    assert_eq!(plan_for(&ModuleState::Failed("gone".to_string())), Plan::CreateAndStart);
    assert_eq!(plan_for(&ModuleState::Created), Plan::StartOnly);
    assert_eq!(plan_for(&ModuleState::Stopped), Plan::StartOnly);
}

#[test]
fn watchdog_new_keeps_its_configuration() {
    let w = Watchdog::new(250, Some(7));
    assert_eq!(w.poll_interval_ms, 250);
    assert_eq!(w.max_failures, Some(7));
}

#[test]
fn start_watchdog_runs_the_configured_loop() {
    let config = WatchdogConfig {
        module_id: "edgeAgent".to_string(),
        spec: spec(),
        poll_interval_ms: 100,
        max_failures: Some(2),
    };
    let events = vec![poll_failing(), poll_failing(), poll_failing()];
    let report = start_watchdog(config, &events);
    assert_eq!(report.outcome, RunOutcome::RetriesExhausted);
    assert_eq!(report.log.len(), 2);
}
