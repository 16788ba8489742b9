use container_monitor::command::{run_command, CommandExecutor, Directive};
use container_monitor::messages::{MonitorError, NamedUpdate, Update};

fn is_terminal(u: &NamedUpdate, directive: Directive) -> bool {
    let progress = match directive {
        Directive::Start => "Starting",
        Directive::Stop => "Stopping",
    };
    match &u.inner {
        Update::Error(_) => true,
        Update::Log(s) => s == progress,
        _ => false,
    }
}

#[test]
fn accepted_start_emits_issuing_then_exactly_one_terminal() {
    let mut bus: Vec<NamedUpdate> = Vec::new();
    run_command(String::from("alpha"), Directive::Start, Ok(()), &mut bus);
    assert_eq!(bus.len(), 2);
    assert_eq!(bus[0].container_name, "alpha");
    match &bus[0].inner {
        Update::Log(s) => assert_eq!(s, "Issuing start command"),
        other => panic!("expected the issuing diagnostic, got {:?}", other),
    }
    match &bus[1].inner {
        Update::Log(s) => assert_eq!(s, "Starting"),
        other => panic!("expected the progress diagnostic, got {:?}", other),
    }
    let terminals = bus.iter().filter(|u| is_terminal(u, Directive::Start)).count();
    assert_eq!(terminals, 1, "exactly one terminal outcome per invocation");
}

#[test]
fn rejected_stop_emits_issuing_then_exactly_one_failure() {
    let mut bus: Vec<NamedUpdate> = Vec::new();
    run_command(
        String::from("alpha"),
        Directive::Stop,
        Err(String::from("unit not loaded")),
        &mut bus,
    );
    assert_eq!(bus.len(), 2);
    match &bus[0].inner {
        Update::Log(s) => assert_eq!(s, "Issuing stop command"),
        other => panic!("expected the issuing diagnostic, got {:?}", other),
    }
    match &bus[1].inner {
        Update::Error(MonitorError::Command { context }) => {
            assert_eq!(context, "Failed to stop container: unit not loaded")
        },
        other => panic!("expected a command failure, got {:?}", other),
    }
    let terminals = bus.iter().filter(|u| is_terminal(u, Directive::Stop)).count();
    assert_eq!(terminals, 1, "exactly one terminal outcome per invocation");
}

#[test]
fn stepwise_executor_matches_the_whole_run() {
    let mut bus: Vec<NamedUpdate> = Vec::new();
    let mut e = CommandExecutor::new(String::from("beta"), Directive::Stop);
    e.begin(&mut bus);
    e.finish(Ok(()), &mut bus);
    assert_eq!(bus.len(), 2);
    match &bus[0].inner {
        Update::Log(s) => assert_eq!(s, "Issuing stop command"),
        other => panic!("expected the issuing diagnostic, got {:?}", other),
    }
    match &bus[1].inner {
        Update::Log(s) => assert_eq!(s, "Stopping"),
        other => panic!("expected the progress diagnostic, got {:?}", other),
    }
    assert!(bus.iter().all(|u| u.container_name == "beta"));
}

#[test]
fn command_failure_does_not_touch_other_events() {
    let mut bus: Vec<NamedUpdate> = Vec::new();
    run_command(String::from("alpha"), Directive::Start, Ok(()), &mut bus);
    run_command(
        String::from("beta"),
        Directive::Start,
        Err(String::from("permission denied")),
        &mut bus,
    );
    assert_eq!(bus.len(), 4);
    assert!(bus[0..2].iter().all(|u| u.container_name == "alpha"));
    assert!(bus[2..4].iter().all(|u| u.container_name == "beta"));
    assert!(!bus[0..2].iter().any(|u| matches!(u.inner, Update::Error(_))));
}
