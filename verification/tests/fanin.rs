use container_monitor::messages::{ContainerState, MonitorError, NamedUpdate, Update};
use container_monitor::supervisor::{fan_in_logs, fan_in_status, start_backend};

fn strings(items: &[&str]) -> Vec<String> {
    items.iter().map(|s| String::from(*s)).collect()
}

#[test]
fn supervisor_owns_two_watchers_per_container() {
    let containers = strings(&["alpha", "beta", "gamma"]);
    let sup = start_backend(containers);
    assert_eq!(sup.len(), 3);
    assert_eq!(sup.container_at(0), "alpha");
    assert_eq!(sup.container_at(1), "beta");
    assert_eq!(sup.container_at(2), "gamma");
}

#[test]
fn fan_in_tags_every_event_with_its_producer() {
    let containers = strings(&["alpha", "beta"]);
    let feeds = vec![strings(&["a1", "a2"]), strings(&["b1", "b2"])];
    let mut bus: Vec<NamedUpdate> = Vec::new();
    let ws = fan_in_logs(&containers, &feeds, &mut bus);
    assert_eq!(ws.len(), 2);
    // Two units, each one whole session: 2 diagnostics + 2 lines.
    assert_eq!(bus.len(), 8);
    // N units x M lines = 4 log-line events in all.
    let line_events = bus
        .iter()
        .filter(|u| matches!(u.inner, Update::ContainerLog(_)))
        .count();
    assert_eq!(line_events, 4);
    // Every event is tagged with one of the producers' names.
    assert!(bus
        .iter()
        .all(|u| u.container_name == "alpha" || u.container_name == "beta"));
    // Per-producer order is preserved and provenance is consistent.
    let alpha_lines: Vec<&str> = bus
        .iter()
        .filter(|u| u.container_name == "alpha")
        .filter_map(|u| match &u.inner {
            Update::ContainerLog(s) => Some(s.as_str()),
            _ => None,
        })
        .collect();
    assert_eq!(alpha_lines, ["a1", "a2"]);
    let beta_lines: Vec<&str> = bus
        .iter()
        .filter(|u| u.container_name == "beta")
        .filter_map(|u| match &u.inner {
            Update::ContainerLog(s) => Some(s.as_str()),
            _ => None,
        })
        .collect();
    assert_eq!(beta_lines, ["b1", "b2"]);
}

#[test]
fn fan_in_of_no_containers_emits_nothing() {
    let containers: Vec<String> = Vec::new();
    let feeds: Vec<Vec<String>> = Vec::new();
    let mut bus: Vec<NamedUpdate> = Vec::new();
    let ws = fan_in_logs(&containers, &feeds, &mut bus);
    assert!(ws.is_empty());
    assert!(bus.is_empty());
}

#[test]
fn status_fan_in_isolates_a_failing_unit() {
    let containers = strings(&["alpha", "beta"]);
    let feeds = vec![
        strings(&["active", "bogus", "active"]),
        strings(&["active", "inactive"]),
    ];
    let mut bus: Vec<NamedUpdate> = Vec::new();
    let ws = fan_in_status(&containers, &feeds, &mut bus);
    assert_eq!(ws.len(), 2);
    // Unit alpha: 2 diagnostics, one state, then the terminal decode failure;
    // the token after "bogus" emits nothing.
    assert_eq!(bus.len(), 4 + 4);
    let alpha: Vec<&NamedUpdate> = bus.iter().filter(|u| u.container_name == "alpha").collect();
    assert_eq!(alpha.len(), 4);
    assert!(matches!(&alpha[2].inner, Update::State(ContainerState::Up)));
    match &alpha[3].inner {
        Update::Error(MonitorError::Decode { token }) => assert_eq!(token, "bogus"),
        other => panic!("expected a decode failure, got {:?}", other),
    }
    // Unit beta is untouched by alpha's failure.
    let beta: Vec<&NamedUpdate> = bus.iter().filter(|u| u.container_name == "beta").collect();
    assert_eq!(beta.len(), 4);
    assert!(matches!(&beta[2].inner, Update::State(ContainerState::Up)));
    assert!(matches!(&beta[3].inner, Update::State(ContainerState::Down)));
}

#[test]
fn fan_in_counts_match_per_unit_feeds() {
    let containers = strings(&["a", "b", "c"]);
    let feeds = vec![
        strings(&["1"]),
        strings(&[]),
        strings(&["x", "y", "z"]),
    ];
    let mut bus: Vec<NamedUpdate> = Vec::new();
    fan_in_logs(&containers, &feeds, &mut bus);
    // Three sessions of 2 diagnostics each, plus 1 + 0 + 3 lines.
    assert_eq!(bus.len(), 3 * 2 + 4);
    let c_events = bus.iter().filter(|u| u.container_name == "c").count();
    assert_eq!(c_events, 5);
}
