use container_monitor::messages::{ContainerState, MonitorError};

fn decode_ok(token: &str) -> ContainerState {
    match ContainerState::from_systemd(token) {
        Ok(st) => st,
        Err(e) => panic!("token {:?} should decode, got error on {:?}", token, e.token),
    }
}

fn decode_err_token(token: &str) -> String {
    match ContainerState::from_systemd(token) {
        Ok(st) => panic!("token {:?} should be rejected, got {:?}", token, st),
        Err(e) => e.token,
    }
}

#[test]
fn decodes_all_eight_tokens_exactly() {
    assert_eq!(decode_ok("active"), ContainerState::Up);
    assert_eq!(decode_ok("inactive"), ContainerState::Down);
    assert_eq!(decode_ok("failed"), ContainerState::Failed);
    assert_eq!(decode_ok("activating"), ContainerState::Starting);
    assert_eq!(decode_ok("deactivating"), ContainerState::Stopping);
    assert_eq!(decode_ok("maintenance"), ContainerState::Maintenance);
    assert_eq!(decode_ok("reloading"), ContainerState::Reloading);
    assert_eq!(decode_ok("refreshing"), ContainerState::Refreshing);
}

#[test]
fn rejects_empty_token_naming_it() {
    assert_eq!(decode_err_token(""), "");
}

#[test]
fn rejects_unknown_token_naming_it() {
    assert_eq!(decode_err_token("bogus"), "bogus");
}

#[test]
fn decode_is_case_sensitive() {
    assert_eq!(decode_err_token("ACTIVE"), "ACTIVE");
    assert_eq!(decode_err_token("Active"), "Active");
}

#[test]
fn rejects_near_miss_tokens() {
    assert_eq!(decode_err_token("activ"), "activ");
    assert_eq!(decode_err_token("actives"), "actives");
    assert_eq!(decode_err_token(" active"), " active");
}

#[test]
fn decode_error_description_names_the_token() {
    let err = MonitorError::Decode { token: String::from("bogus") };
    assert_eq!(err.describe(), "Unrecognized unit status bogus");
}

#[test]
fn setup_error_description_is_its_context() {
    let err = MonitorError::Setup { context: String::from("Failed to connect") };
    assert_eq!(err.describe(), "Failed to connect");
}
