use eureka_client::structures::{DcNameType, Instance, PortData, SecurePort, StatusType};
use eureka_client::{BaseConfig, EurekaClient, EurekaError};

fn up_instance(app: &str, ip: &str, port: u16) -> Instance {
    let mut i = Instance::default();
    i.app = app.to_string();
    i.host_name = ip.to_string();
    i.ip_addr = ip.to_string();
    i.port = PortData::new(port, true);
    i.status = StatusType::Up;
    i
}

#[test]
fn resolve_after_register_and_refresh() {
    // The registry holds nothing for ORDERS: resolution yields no endpoint.
    let mut client = EurekaClient::new(BaseConfig::default());
    client.registry.start(Ok(vec![])).unwrap();
    assert_eq!(client.find_app_address("ORDERS"), None);

    // After a register and an UP transition, a refresh makes the instance
    // visible, and resolution yields its endpoint.
    let refreshed = vec![up_instance("ORDERS", "10.0.0.5", 8080)];
    client.registry.update_app_cache(Ok(refreshed)).unwrap();
    assert_eq!(client.find_app_address("ORDERS"), Some("10.0.0.5:8080".to_string()));
}

#[test]
fn disabled_preferred_port_means_no_endpoint() {
    let mut client = EurekaClient::new(BaseConfig::default());
    let mut inst = up_instance("ORDERS", "10.0.0.5", 8080);
    inst.port = PortData::new(8080, false);
    client.registry.start(Ok(vec![inst])).unwrap();
    assert_eq!(client.find_app_address("ORDERS"), None);
}

#[test]
fn request_urls_join_endpoint_and_path() {
    let mut client = EurekaClient::new(BaseConfig::default());
    client.registry.start(Ok(vec![up_instance("ORDERS", "10.0.0.5", 8080)])).unwrap();
    let url = client.make_request_url("ORDERS", "//v1/orders").unwrap();
    assert_eq!(url, "http://10.0.0.5:8080/v1/orders");
    match client.make_request_url("NOWHERE", "/v1/orders") {
        Err(EurekaError::UnexpectedState(m)) => assert_eq!(m, "Could not find app NOWHERE"),
        other => panic!("unexpected outcome: {:?}", other),
    }
}

#[test]
fn facade_wires_the_configuration_through() {
    let mut config = BaseConfig::default();
    config.instance.app = "ORDERS".to_string();
    let client = EurekaClient::new(config);
    assert_eq!(client.base_url, "http://localhost:8761/eureka");
    assert_eq!(client.registry.client.base_url, "http://localhost:8761/eureka");
    let managed = client.instance.as_ref().expect("registration is on by default");
    assert_eq!(managed.config.vip_address, "ORDERS");
    assert_eq!(managed.config.secure_vip_address, "ORDERS");

    let mut config = BaseConfig::default();
    config.eureka.register_with_eureka = false;
    config.eureka.ssl = true;
    config.eureka.host = "registry.example".to_string();
    config.eureka.port = 8443;
    let client = EurekaClient::new(config);
    assert_eq!(client.base_url, "https://registry.example:8443/eureka");
    assert!(client.instance.is_none());
}

#[test]
fn defaults_match_the_documented_configuration() {
    let config = BaseConfig::default();
    assert_eq!(config.eureka.host, "localhost");
    assert_eq!(config.eureka.port, 8761);
    assert_eq!(config.eureka.heartbeat_interval, 30_000);
    assert_eq!(config.eureka.registry_fetch_interval, 30_000);
    assert_eq!(config.eureka.max_retries, 3);
    assert_eq!(config.eureka.request_retry_delay, 500);
    assert!(config.eureka.fetch_registry);
    assert!(config.eureka.filter_up_instances);
    assert_eq!(config.eureka.service_path, "/eureka");
    assert!(!config.eureka.ssl);
    assert!(config.eureka.register_with_eureka);

    let inst = Instance::default();
    assert_eq!(inst.host_name, "localhost");
    assert_eq!(inst.instance_id, None);
    assert_eq!(inst.ip_addr, "127.0.0.1");
    assert_eq!(inst.status, StatusType::Starting);
    assert_eq!(inst.port, PortData::new(80, true));
    assert_eq!(inst.secure_port, SecurePort::new(443, false));
    assert_eq!(inst.data_center_info.name, DcNameType::MyOwn);
    assert!(inst.lease_info.is_none());
    assert!(inst.metadata.is_none());
}

#[test]
fn status_tokens_round_trip_where_the_schema_reads_them() {
    assert_eq!(StatusType::Up.token(), "UP");
    assert_eq!(StatusType::Down.token(), "DOWN");
    assert_eq!(StatusType::Starting.token(), "STARTING");
    assert_eq!(StatusType::OutOfService.token(), "OUT_OF_SERVICE");
    assert_eq!(StatusType::Unknown.token(), "UNKNOWN");
    // Every token of the wire set parses back to its status.
    for status in [
        StatusType::Up,
        StatusType::Down,
        StatusType::Starting,
        StatusType::OutOfService,
        StatusType::Unknown,
    ] {
        assert_eq!(StatusType::from_str(status.token()), Ok(status));
    }
    assert_eq!(StatusType::from_str("sideways"), Err("Invalid statusType".to_string()));
    assert_eq!(DcNameType::from_str("MyOwn"), Ok(DcNameType::MyOwn));
    assert_eq!(DcNameType::from_str("Amazon"), Ok(DcNameType::Amazon));
    assert_eq!(DcNameType::from_str("Azure"), Err("Invalid dcNameType".to_string()));
}
