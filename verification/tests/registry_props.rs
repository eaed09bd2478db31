use eureka_client::registry::{group_instances_by_app, RegistryClient};
use eureka_client::structures::{Instance, StatusType};
use eureka_client::EurekaError;

fn inst(app: &str, host: &str, status: StatusType) -> Instance {
    let mut i = Instance::default();
    i.app = app.to_string();
    i.host_name = host.to_string();
    i.status = status;
    i
}

#[test]
fn grouping_is_stable() {
    let listing = vec![
        inst("A", "a1", StatusType::Up),
        inst("B", "b1", StatusType::Up),
        inst("A", "a2", StatusType::Down),
        inst("C", "c1", StatusType::Up),
        inst("B", "b2", StatusType::Up),
    ];
    let groups = group_instances_by_app(listing);
    let names: Vec<&str> = groups.iter().map(|g| g.0.as_str()).collect();
    assert_eq!(names, vec!["A", "B", "C"]);
    let a_hosts: Vec<&str> = groups[0].1.iter().map(|i| i.host_name.as_str()).collect();
    assert_eq!(a_hosts, vec!["a1", "a2"]);
    let b_hosts: Vec<&str> = groups[1].1.iter().map(|i| i.host_name.as_str()).collect();
    assert_eq!(b_hosts, vec!["b1", "b2"]);
    assert_eq!(groups[2].1.len(), 1);
}

#[test]
fn resolution_returns_only_up_instances() {
    let mut registry = RegistryClient::new("http://localhost:8761/eureka".to_string());
    let listing = vec![
        inst("APP", "h1", StatusType::Down),
        inst("APP", "h2", StatusType::Up),
        inst("APP", "h3", StatusType::OutOfService),
        inst("APP", "h4", StatusType::Up),
        inst("APP", "h5", StatusType::Starting),
    ];
    registry.update_app_cache(Ok(listing)).unwrap();
    for r in 0..100 {
        let picked = registry.select_up_instance("APP", r).expect("an UP instance exists");
        assert_eq!(picked.status, StatusType::Up);
        assert!(picked.host_name == "h2" || picked.host_name == "h4");
    }
    for _ in 0..100 {
        let picked = registry.get_instance_by_app_name("APP").expect("an UP instance exists");
        assert_eq!(picked.status, StatusType::Up);
    }
}

#[test]
fn resolution_is_uniform_over_the_draw() {
    let mut registry = RegistryClient::new("http://localhost:8761/eureka".to_string());
    let listing = vec![
        inst("APP", "h1", StatusType::Up),
        inst("APP", "h2", StatusType::Down),
        inst("APP", "h3", StatusType::Up),
        inst("APP", "h4", StatusType::Up),
    ];
    registry.update_app_cache(Ok(listing)).unwrap();
    // Three UP instances: over any full span of residues, each is picked
    // equally often, and draws with equal residue pick the same instance.
    let mut counts = std::collections::BTreeMap::new();
    for r in 0..30 {
        let picked = registry.select_up_instance("APP", r).unwrap();
        *counts.entry(picked.host_name.clone()).or_insert(0) += 1;
        let again = registry.select_up_instance("APP", r + 3).unwrap();
        assert_eq!(picked.host_name, again.host_name);
    }
    assert_eq!(counts.len(), 3);
    for (_, n) in counts {
        assert_eq!(n, 10);
    }
}

#[test]
fn resolution_is_empty_without_up_instances() {
    let mut registry = RegistryClient::new("http://localhost:8761/eureka".to_string());
    assert!(registry.get_instance_by_app_name("NOWHERE").is_none());
    let listing = vec![inst("APP", "h1", StatusType::Down)];
    registry.update_app_cache(Ok(listing)).unwrap();
    assert!(registry.get_instance_by_app_name("APP").is_none());
    assert!(registry.select_up_instance("APP", 0).is_none());
}

#[test]
fn failed_refresh_leaves_the_snapshot_unchanged() {
    let mut registry = RegistryClient::new("http://localhost:8761/eureka".to_string());
    let listing = vec![
        inst("A", "a1", StatusType::Up),
        inst("B", "b1", StatusType::Up),
        inst("A", "a2", StatusType::Up),
    ];
    registry.start(Ok(listing)).unwrap();
    let before: Vec<(String, Vec<String>)> = registry
        .app_cache
        .iter()
        .map(|g| (g.0.clone(), g.1.iter().map(|i| i.host_name.clone()).collect()))
        .collect();
    let err = registry.update_app_cache(Err(EurekaError::Network("connection refused".to_string())));
    let msg = err.expect_err("a failed fetch must be reported");
    assert_eq!(msg, "Failed to fetch registry: network failure: connection refused");
    let after: Vec<(String, Vec<String>)> = registry
        .app_cache
        .iter()
        .map(|g| (g.0.clone(), g.1.iter().map(|i| i.host_name.clone()).collect()))
        .collect();
    assert_eq!(before, after);
    assert!(registry.should_run());
    registry.stop();
    assert!(!registry.should_run());
}
