use eureka_client::rest::{
    app_instances_outcome, heartbeat_outcome, instance_outcome, instances_outcome, write_outcome,
    AcceptKind, EurekaRestClient, HttpMethod, HttpResponse,
};
use eureka_client::structures::{Instance, StatusType};
use eureka_client::EurekaError;

fn client() -> EurekaRestClient {
    EurekaRestClient::new("http://localhost:8761/eureka".to_string())
}

fn ok(status: u16, body: &str) -> Result<HttpResponse, String> {
    Ok(HttpResponse { status, body: body.as_bytes().to_vec() })
}

#[test]
fn request_urls_are_encoded_per_position() {
    let c = client();
    let r = c.register_request("my app/1", &Instance::default());
    assert_eq!(r.method, HttpMethod::Post);
    assert_eq!(r.url, "http://localhost:8761/eureka/apps/my%20app%2F1");
    assert!(r.body.is_some());

    let r = c.deregister_request("ORDERS", "node a");
    assert_eq!(r.method, HttpMethod::Delete);
    assert_eq!(r.url, "http://localhost:8761/eureka/apps/ORDERS/node%20a");

    let r = c.heartbeat_request("ORDERS", "node-1");
    assert_eq!(r.method, HttpMethod::Put);
    assert_eq!(r.url, "http://localhost:8761/eureka/apps/ORDERS/node-1");

    let r = c.get_all_instances_request();
    assert_eq!(r.method, HttpMethod::Get);
    assert_eq!(r.url, "http://localhost:8761/eureka/apps");
    assert_eq!(r.accept, AcceptKind::Xml);

    let r = c.get_instances_by_app_request("ORDERS");
    assert_eq!(r.url, "http://localhost:8761/eureka/apps/ORDERS");

    let r = c.get_instance_by_app_and_instance_request("ORDERS", "node-1");
    assert_eq!(r.url, "http://localhost:8761/eureka/apps/ORDERS/node-1");

    let r = c.update_status_request("ORDERS", "node-1", StatusType::Up);
    assert_eq!(r.url, "http://localhost:8761/eureka/apps/ORDERS/node-1/status?value=UP");

    // Query values encode a space as "+", path segments as "%20".
    let r = c.update_metadata_request("my app", "node-1", "a key", "a value+");
    assert_eq!(
        r.url,
        "http://localhost:8761/eureka/apps/my%20app/node-1/metadata?a+key=a+value%2B"
    );

    let r = c.get_instances_by_vip_address_request("bench");
    assert_eq!(r.url, "http://localhost:8761/eureka/vips/bench");
    assert_eq!(r.accept, AcceptKind::Xml);

    let r = c.get_instances_by_svip_address_request("bench");
    assert_eq!(r.url, "http://localhost:8761/eureka/svips/bench");
    assert_eq!(r.accept, AcceptKind::Json);
}

#[test]
fn register_body_is_the_instance_document() {
    let mut inst = Instance::default();
    inst.app = "ORDERS".to_string();
    inst.host_name = "node<1>".to_string();
    inst.status = StatusType::Up;
    let body = inst.to_string().expect("serialization is UTF-8");
    assert!(body.starts_with("<instance><hostName>node&lt;1&gt;</hostName>"));
    assert!(body.contains("<app>ORDERS</app>"));
    assert!(body.contains("<status>UP</status>"));
    assert!(body.contains("<port enabled=\"true\">80</port>"));
    assert!(body.contains("<securePort enabled=\"false\">443</securePort>"));
    assert!(body.contains("<dataCenterInfo><name>MyOwn</name></dataCenterInfo>"));
    assert!(body.ends_with("</instance>"));
}

#[test]
fn write_outcomes_follow_the_status_code() {
    assert!(write_outcome(ok(204, ""), 204).is_ok());
    match write_outcome(ok(500, ""), 204) {
        Err(EurekaError::Request(500)) => {}
        other => panic!("unexpected outcome: {:?}", other),
    }
    match write_outcome(Err("timed out".to_string()), 200) {
        Err(EurekaError::Network(m)) => assert_eq!(m, "timed out"),
        other => panic!("unexpected outcome: {:?}", other),
    }
}

#[test]
fn heartbeat_404_is_the_distinguished_forgotten_state() {
    assert!(heartbeat_outcome(ok(200, "")).is_ok());
    match heartbeat_outcome(ok(404, "")) {
        Err(EurekaError::UnexpectedState(m)) => assert_eq!(m, "Instance does not exist"),
        other => panic!("unexpected outcome: {:?}", other),
    }
    match heartbeat_outcome(ok(503, "")) {
        Err(EurekaError::Request(503)) => {}
        other => panic!("unexpected outcome: {:?}", other),
    }
}

#[test]
fn fetch_outcomes_parse_the_body() {
    let listing = "<applications><application><name>A</name>\
        <instance>\
        <hostName>h1</hostName><app>A</app><ipAddr>10.0.0.1</ipAddr>\
        <vipAddress>a</vipAddress><secureVipAddress>a</secureVipAddress>\
        <status>UP</status>\
        <port enabled=\"true\">80</port><securePort enabled=\"false\">443</securePort>\
        <homePageUrl></homePageUrl><statusPageUrl></statusPageUrl><healthCheckUrl></healthCheckUrl>\
        <dataCenterInfo><name>MyOwn</name></dataCenterInfo>\
        </instance></application></applications>";
    let instances = instances_outcome(ok(200, listing)).expect("listing parses");
    assert_eq!(instances.len(), 1);
    assert_eq!(instances[0].host_name, "h1");

    match instances_outcome(ok(200, "<applications>")) {
        Err(EurekaError::ParseError(_)) => {}
        other => panic!("unexpected outcome: {:?}", other),
    }
    match instances_outcome(ok(503, listing)) {
        Err(EurekaError::Request(503)) => {}
        other => panic!("unexpected outcome: {:?}", other),
    }

    let app_doc = "<application><name>A</name></application>";
    let instances = app_instances_outcome(ok(200, app_doc)).expect("application parses");
    assert!(instances.is_empty());

    let inst_doc = "<instance>\
        <hostName>h1</hostName><app>A</app><ipAddr>10.0.0.1</ipAddr>\
        <vipAddress>a</vipAddress><secureVipAddress>a</secureVipAddress>\
        <status>UP</status>\
        <port enabled=\"true\">80</port><securePort enabled=\"false\">443</securePort>\
        <homePageUrl></homePageUrl><statusPageUrl></statusPageUrl><healthCheckUrl></healthCheckUrl>\
        <dataCenterInfo><name>MyOwn</name></dataCenterInfo>\
        </instance>";
    let inst = instance_outcome(ok(200, inst_doc)).expect("instance parses");
    assert_eq!(inst.ip_addr, "10.0.0.1");
}

#[test]
fn a_starting_instance_does_not_poison_the_listing() {
    // A registry may legitimately list an instance that is still starting;
    // the fetch must parse and resolution must simply not pick it.
    let listing = "<applications><application><name>A</name>\
        <instance>\
        <hostName>h1</hostName><app>A</app><ipAddr>10.0.0.1</ipAddr>\
        <vipAddress>a</vipAddress><secureVipAddress>a</secureVipAddress>\
        <status>STARTING</status>\
        <port enabled=\"true\">80</port><securePort enabled=\"false\">443</securePort>\
        <homePageUrl></homePageUrl><statusPageUrl></statusPageUrl><healthCheckUrl></healthCheckUrl>\
        <dataCenterInfo><name>MyOwn</name></dataCenterInfo>\
        </instance></application></applications>";
    let instances = instances_outcome(ok(200, listing)).expect("a starting instance parses");
    assert_eq!(instances.len(), 1);
    assert_eq!(instances[0].status, StatusType::Starting);

    let mut registry =
        eureka_client::registry::RegistryClient::new("http://localhost:8761/eureka".to_string());
    registry.update_app_cache(Ok(instances)).unwrap();
    assert!(registry.get_instance_by_app_name("A").is_none());
}

#[test]
fn a_document_prolog_is_skipped() {
    let listing = "<?xml version=\"1.0\" encoding=\"UTF-8\"?>\n\
        <!-- served by the registry -->\n\
        <applications></applications>";
    let instances = instances_outcome(ok(200, listing)).expect("prolog is skipped");
    assert!(instances.is_empty());

    let broken = "<?xml version=\"1.0\"\n<applications></applications>";
    match instances_outcome(ok(200, broken)) {
        Err(EurekaError::ParseError(_)) => {}
        other => panic!("unexpected outcome: {:?}", other),
    }
}
