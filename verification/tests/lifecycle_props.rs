use eureka_client::instance::{InstanceClient, LifecycleAction, LifecycleState};
use eureka_client::structures::{Instance, StatusType};
use eureka_client::EurekaError;

fn manager() -> InstanceClient {
    let mut config = Instance::default();
    config.app = "ORDERS".to_string();
    config.host_name = "node-1".to_string();
    InstanceClient::new("http://localhost:8761/eureka".to_string(), config)
}

fn network_err() -> Result<(), EurekaError> {
    Err(EurekaError::Network("connection refused".to_string()))
}

fn not_found_err() -> Result<(), EurekaError> {
    Err(EurekaError::UnexpectedState("Instance does not exist".to_string()))
}

#[test]
fn identity_defaults_to_host_name() {
    let mgr = manager();
    assert_eq!(mgr.get_instance_id(), "node-1");

    let mut config = Instance::default();
    config.host_name = "node-1".to_string();
    config.instance_id = Some("explicit-id".to_string());
    let mgr2 = InstanceClient::new("http://localhost:8761/eureka".to_string(), config);
    assert_eq!(mgr2.get_instance_id(), "explicit-id");
}

#[test]
fn start_blocks_until_register_succeeds() {
    let mut mgr = manager();
    for _ in 0..5 {
        let action = mgr.start_register_step(network_err());
        assert_eq!(action, LifecycleAction::SleepRetry);
        assert_eq!(mgr.state, LifecycleState::NotRegistered);
        assert!(!mgr.is_running);
    }
    let action = mgr.start_register_step(Ok(()));
    assert_eq!(action, LifecycleAction::SetStatusUp);
    assert_eq!(mgr.state, LifecycleState::SettingUp);
    assert!(mgr.is_running);

    // The start sequence also blocks until the UP transition is accepted.
    let action = mgr.start_set_status_step(network_err());
    assert_eq!(action, LifecycleAction::SleepRetry);
    assert_eq!(mgr.state, LifecycleState::SettingUp);
    let action = mgr.start_set_status_step(Ok(()));
    assert_eq!(action, LifecycleAction::SleepTick);
    assert_eq!(mgr.state, LifecycleState::Up);
}

#[test]
fn heartbeat_not_found_triggers_one_reregistration() {
    let mut mgr = manager();
    mgr.start_register_step(Ok(()));
    mgr.start_set_status_step(Ok(()));

    // The registry forgot the instance: exactly one register call is owed.
    let action = mgr.heartbeat_step(not_found_err());
    assert_eq!(action, LifecycleAction::Register);
    assert_eq!(mgr.state, LifecycleState::ReRegistering);
    let action = mgr.reregister_step(Ok(()));
    assert_eq!(action, LifecycleAction::SetStatusUp);
    let action = mgr.reset_status_step(Ok(()));
    assert_eq!(action, LifecycleAction::SleepTick);
    assert_eq!(mgr.state, LifecycleState::Up);

    // A later successful heartbeat triggers no re-registration.
    let action = mgr.heartbeat_step(Ok(()));
    assert_eq!(action, LifecycleAction::SleepTick);
    assert_eq!(mgr.state, LifecycleState::Up);
}

#[test]
fn failed_reregistration_skips_the_status_call() {
    let mut mgr = manager();
    mgr.start_register_step(Ok(()));
    mgr.start_set_status_step(Ok(()));

    let action = mgr.heartbeat_step(network_err());
    assert_eq!(action, LifecycleAction::Register);
    // The register call itself fails: no status call this tick, just the
    // next heartbeat.
    let action = mgr.reregister_step(network_err());
    assert_eq!(action, LifecycleAction::SleepTick);
    assert_eq!(mgr.state, LifecycleState::Up);
}

#[test]
fn stopping_clears_the_flag_and_deregisters() {
    let mut mgr = manager();
    mgr.start_register_step(Ok(()));
    assert!(mgr.should_run());
    let action = mgr.stop();
    assert_eq!(action, LifecycleAction::Deregister);
    assert!(!mgr.should_run());
}
