use container_monitor::logwatch::LogWatcher;
use container_monitor::messages::{ContainerState, MonitorError, NamedUpdate, Update};
use container_monitor::status::StatusWatcher;

fn strings(items: &[&str]) -> Vec<String> {
    items.iter().map(|s| String::from(*s)).collect()
}

fn expect_state(u: &NamedUpdate, name: &str, state: ContainerState) {
    assert_eq!(u.container_name, name);
    match &u.inner {
        Update::State(st) => assert_eq!(*st, state),
        other => panic!("expected a state change, got {:?}", other),
    }
}

fn expect_log(u: &NamedUpdate, name: &str, text: &str) {
    assert_eq!(u.container_name, name);
    match &u.inner {
        Update::Log(s) => assert_eq!(s, text),
        other => panic!("expected a diagnostic log, got {:?}", other),
    }
}

fn expect_container_log(u: &NamedUpdate, name: &str, text: &str) {
    assert_eq!(u.container_name, name);
    match &u.inner {
        Update::ContainerLog(s) => assert_eq!(s, text),
        other => panic!("expected a container log line, got {:?}", other),
    }
}

#[test]
fn status_watcher_emits_connecting_before_any_state_change() {
    let mut bus: Vec<NamedUpdate> = Vec::new();
    let mut w = StatusWatcher::new(String::from("alpha"));
    w.begin(&mut bus);
    w.on_connected(&mut bus);
    w.on_token("active", &mut bus);
    assert_eq!(bus.len(), 3);
    expect_log(&bus[0], "alpha", "Connecting to systemd");
    expect_log(&bus[1], "alpha", "Monitoring");
    expect_state(&bus[2], "alpha", ContainerState::Up);
    let first_state = bus
        .iter()
        .position(|u| matches!(u.inner, Update::State(_)))
        .unwrap();
    let first_diag = bus
        .iter()
        .position(|u| matches!(u.inner, Update::Log(_)))
        .unwrap();
    assert!(first_diag < first_state);
}

#[test]
fn status_watcher_orders_state_changes_exactly() {
    let mut bus: Vec<NamedUpdate> = Vec::new();
    let mut w = StatusWatcher::new(String::from("alpha"));
    w.begin(&mut bus);
    w.on_connected(&mut bus);
    let tokens = strings(&["activating", "active", "deactivating", "inactive"]);
    w.feed_tokens(&tokens, &mut bus);
    assert_eq!(bus.len(), 6);
    expect_state(&bus[2], "alpha", ContainerState::Starting);
    expect_state(&bus[3], "alpha", ContainerState::Up);
    expect_state(&bus[4], "alpha", ContainerState::Stopping);
    expect_state(&bus[5], "alpha", ContainerState::Down);
}

#[test]
fn decode_failure_is_terminal_and_silences_the_watcher() {
    let mut bus: Vec<NamedUpdate> = Vec::new();
    let mut w = StatusWatcher::new(String::from("alpha"));
    w.begin(&mut bus);
    w.on_connected(&mut bus);
    let tokens = strings(&["active", "inactive", "bogus", "active", "failed"]);
    w.feed_tokens(&tokens, &mut bus);
    assert_eq!(bus.len(), 5);
    expect_state(&bus[2], "alpha", ContainerState::Up);
    expect_state(&bus[3], "alpha", ContainerState::Down);
    match &bus[4].inner {
        Update::Error(MonitorError::Decode { token }) => assert_eq!(token, "bogus"),
        other => panic!("expected a decode failure, got {:?}", other),
    }
    let more = strings(&["active", "reloading"]);
    w.feed_tokens(&more, &mut bus);
    assert_eq!(bus.len(), 5, "a dead watcher must emit nothing further");
}

#[test]
fn status_watcher_setup_failure_emits_one_contextual_error() {
    let mut bus: Vec<NamedUpdate> = Vec::new();
    let mut w = StatusWatcher::new(String::from("alpha"));
    w.begin(&mut bus);
    w.fail_setup("Failed to connect to systemd manager: no bus", &mut bus);
    assert_eq!(bus.len(), 2);
    expect_log(&bus[0], "alpha", "Connecting to systemd");
    match &bus[1].inner {
        Update::Error(MonitorError::Setup { context }) => assert_eq!(
            context,
            "Failed to set up status monitoring: Failed to connect to systemd manager: no bus"
        ),
        other => panic!("expected a setup failure, got {:?}", other),
    }
}

#[test]
fn fault_in_one_unit_leaves_another_unit_watching() {
    let mut bus: Vec<NamedUpdate> = Vec::new();
    let mut a = StatusWatcher::new(String::from("alpha"));
    let mut b = StatusWatcher::new(String::from("beta"));
    a.begin(&mut bus);
    a.on_connected(&mut bus);
    b.begin(&mut bus);
    b.on_connected(&mut bus);
    a.on_token("bogus", &mut bus);
    assert!(matches!(bus.last().unwrap().inner, Update::Error(_)));
    let before = bus.len();
    let steady = strings(&["active", "inactive", "active"]);
    b.feed_tokens(&steady, &mut bus);
    assert_eq!(bus.len(), before + 3);
    expect_state(&bus[before], "beta", ContainerState::Up);
    expect_state(&bus[before + 1], "beta", ContainerState::Down);
    expect_state(&bus[before + 2], "beta", ContainerState::Up);
    a.feed_tokens(&steady, &mut bus);
    assert_eq!(bus.len(), before + 3, "the failed unit must stay silent");
}

#[test]
fn log_watcher_forwards_two_lines_then_closes_cleanly() {
    let mut bus: Vec<NamedUpdate> = Vec::new();
    let mut w = LogWatcher::new(String::from("alpha"));
    w.begin(&mut bus);
    w.on_started(&mut bus);
    let lines = strings(&["hello", "world"]);
    w.feed_lines(&lines, &mut bus);
    w.on_stream_end();
    assert_eq!(bus.len(), 4);
    expect_log(&bus[0], "alpha", "Requesting logs");
    expect_log(&bus[1], "alpha", "Reading logs");
    expect_container_log(&bus[2], "alpha", "hello");
    expect_container_log(&bus[3], "alpha", "world");
    assert!(bus.iter().all(|u| !matches!(u.inner, Update::Error(_))));
}

#[test]
fn log_watcher_forwards_no_lines_for_an_empty_stream() {
    let mut bus: Vec<NamedUpdate> = Vec::new();
    let mut w = LogWatcher::new(String::from("alpha"));
    w.begin(&mut bus);
    w.on_started(&mut bus);
    let lines: Vec<String> = Vec::new();
    w.feed_lines(&lines, &mut bus);
    w.on_stream_end();
    assert_eq!(bus.len(), 2);
}

#[test]
fn log_watcher_setup_failure_emits_one_contextual_error() {
    let mut bus: Vec<NamedUpdate> = Vec::new();
    let mut w = LogWatcher::new(String::from("alpha"));
    w.begin(&mut bus);
    w.fail_setup("Failed to spawn journalctl: not found", &mut bus);
    assert_eq!(bus.len(), 2);
    match &bus[1].inner {
        Update::Error(MonitorError::Setup { context }) => assert_eq!(
            context,
            "Failed to set up log monitoring: Failed to spawn journalctl: not found"
        ),
        other => panic!("expected a setup failure, got {:?}", other),
    }
}

#[test]
fn log_watcher_read_failure_emits_one_operational_error() {
    let mut bus: Vec<NamedUpdate> = Vec::new();
    let mut w = LogWatcher::new(String::from("alpha"));
    w.begin(&mut bus);
    w.on_started(&mut bus);
    w.on_line("partial output", &mut bus);
    w.fail_read("broken pipe", &mut bus);
    assert_eq!(bus.len(), 4);
    match &bus[3].inner {
        Update::Error(MonitorError::Operational { context }) => {
            assert_eq!(context, "Failed to read log line: broken pipe")
        },
        other => panic!("expected an operational failure, got {:?}", other),
    }
}
