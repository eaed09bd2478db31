use eureka_client::structures::{
    AppMetaDataType, Application, Applications, DataCenterInfo, DcNameType, Instance, LeaseInfo,
    PortData,
};
use eureka_client::xml::parse_document_bytes;

#[test]
fn test_xml_r() {
    let xml = r#"<root bar="bar" baz="123"/>"#;
    let r = parse_document_bytes(xml.as_bytes());
    let elem = r.expect("attribute-only element must parse");
    assert_eq!(elem.name, b"root".to_vec());
    assert_eq!(elem.attrs.len(), 2);
    assert_eq!(elem.attrs[0].name, b"bar".to_vec());
    assert_eq!(elem.attrs[0].value, b"bar".to_vec());
    assert_eq!(elem.attrs[1].name, b"baz".to_vec());
    assert_eq!(elem.attrs[1].value, b"123".to_vec());
}

#[test]
fn test_xml_applications() {
    let xml = r#"<applications></applications>"#;
    let applications = Applications::from_str(xml).expect("empty listing must parse");
    assert!(applications.versions_delta.is_none());
    assert!(applications.apps_hashcode.is_none());
    assert!(applications.applications.is_empty());
}

#[test]
fn test_xml_application() {
    let xml = r#"<application><name>abcd</name></application>"#;
    let application = Application::from_str(xml).expect("application must parse");
    assert_eq!(application.name, "abcd");
    assert!(application.instances.is_empty());
}

#[test]
fn test_xml_instance() {
    let xml = r#"<instance>
      <hostName>localhost</hostName>
      <app>BENCH</app>
      <ipAddr>127.0.0.1</ipAddr>
      <status>UP</status>
      <overriddenstatus>UP</overriddenstatus>
      <port enabled="true">8080</port>
      <securePort enabled="false">443</securePort>
      <countryId>1</countryId>
      <dataCenterInfo class="com.netflix.appinfo.InstanceInfo$DefaultDataCenterInfo">
        <name>MyOwn</name>
      </dataCenterInfo>
      <leaseInfo>
        <renewalIntervalInSecs>30</renewalIntervalInSecs>
        <durationInSecs>90</durationInSecs>
        <registrationTimestamp>1616761261538</registrationTimestamp>
        <lastRenewalTimestamp>1616761921820</lastRenewalTimestamp>
        <evictionTimestamp>0</evictionTimestamp>
        <serviceUpTimestamp>1616761261439</serviceUpTimestamp>
      </leaseInfo>
      <metadata class="java.util.Collections$EmptyMap"/>
      <homePageUrl>/eureka</homePageUrl>
      <statusPageUrl></statusPageUrl>
      <healthCheckUrl></healthCheckUrl>
      <vipAddress>bench</vipAddress>
      <secureVipAddress>bench</secureVipAddress>
      <isCoordinatingDiscoveryServer>false</isCoordinatingDiscoveryServer>
      <lastUpdatedTimestamp>1616761261538</lastUpdatedTimestamp>
      <lastDirtyTimestamp>1616761261439</lastDirtyTimestamp>
      <actionType>ADDED</actionType>
    </instance>"#;

    let instance: Instance = Instance::from_str(xml).expect("instance must parse");
    assert_eq!(instance.host_name, "localhost");
    assert_eq!(instance.app, "BENCH");
    assert_eq!(instance.ip_addr, "127.0.0.1");
}

#[test]
fn test_xml_port() {
    let xml = r#"<port enabled="false">80</port>"#;
    let port = PortData::from_str(xml).expect("port must parse");
    assert_eq!(port.enabled, false);
    assert_eq!(port.value, 80);
}

#[test]
fn test_xml_data_center_info() {
    let xml = r#"<dataCenterInfo class="com.netflix.appinfo.InstanceInfo$DefaultDataCenterInfo">
        <name>MyOwn</name>
      </dataCenterInfo>"#;
    let data_center_info = DataCenterInfo::from_str(xml).expect("data-center info must parse");
    assert_eq!(data_center_info.name, DcNameType::MyOwn);
    assert_eq!(
        data_center_info.class,
        Some("com.netflix.appinfo.InstanceInfo$DefaultDataCenterInfo".to_string())
    );
}

#[test]
fn test_xml_lease_info() {
    let xml = r#"<leaseInfo></leaseInfo>"#;
    let lease_info = LeaseInfo::from_str(xml).expect("lease info must parse");
    assert_eq!(lease_info.eviction_duration_in_secs, None);
}

#[test]
fn test_xml_app_meta_data() {
    let xml = r#"<metadata class="java.util.Collections$EmptyMap"><a>hello</a></metadata>"#;
    let metadata = AppMetaDataType::from_str(xml).expect("metadata must parse");
    assert_eq!(
        metadata.class,
        Some("java.util.Collections$EmptyMap".to_string())
    );
    assert_eq!(metadata.get("a").unwrap(), "hello");

    let s = metadata.to_string().expect("metadata must serialize");
    assert_eq!(s, xml);
}

#[test]
fn test_xml_full() {
    let xml = r#"<applications>
  <versions__delta>1</versions__delta>
  <apps__hashcode>UP_2_</apps__hashcode>
  <application>
    <name>BENCH</name>
    <instance>
      <hostName>localhost</hostName>
      <app>BENCH</app>
      <ipAddr>127.0.0.1</ipAddr>
      <status>UP</status>
      <overriddenstatus>UP</overriddenstatus>
      <port enabled="true">8080</port>
      <securePort enabled="false">443</securePort>
      <countryId>1</countryId>
      <dataCenterInfo class="com.netflix.appinfo.InstanceInfo$DefaultDataCenterInfo">
        <name>MyOwn</name>
      </dataCenterInfo>
      <leaseInfo>
        <renewalIntervalInSecs>30</renewalIntervalInSecs>
        <durationInSecs>90</durationInSecs>
        <registrationTimestamp>1616761261538</registrationTimestamp>
        <lastRenewalTimestamp>1616761921820</lastRenewalTimestamp>
        <evictionTimestamp>0</evictionTimestamp>
        <serviceUpTimestamp>1616761261439</serviceUpTimestamp>
      </leaseInfo>
      <metadata class="java.util.Collections$EmptyMap"/>
      <homePageUrl>/eureka</homePageUrl>
      <statusPageUrl></statusPageUrl>
      <healthCheckUrl></healthCheckUrl>
      <vipAddress>bench</vipAddress>
      <secureVipAddress>bench</secureVipAddress>
      <isCoordinatingDiscoveryServer>false</isCoordinatingDiscoveryServer>
      <lastUpdatedTimestamp>1616761261538</lastUpdatedTimestamp>
      <lastDirtyTimestamp>1616761261439</lastDirtyTimestamp>
      <actionType>ADDED</actionType>
    </instance>
    <instance>
      <hostName>localhost2</hostName>
      <app>BENCH</app>
      <ipAddr>127.0.0.1</ipAddr>
      <status>UP</status>
      <overriddenstatus>UP</overriddenstatus>
      <port enabled="true">8081</port>
      <securePort enabled="false">443</securePort>
      <countryId>1</countryId>
      <dataCenterInfo class="com.netflix.appinfo.InstanceInfo$DefaultDataCenterInfo">
        <name>MyOwn</name>
      </dataCenterInfo>
      <leaseInfo>
        <renewalIntervalInSecs>30</renewalIntervalInSecs>
        <durationInSecs>90</durationInSecs>
        <registrationTimestamp>1616761233029</registrationTimestamp>
        <lastRenewalTimestamp>1616761900818</lastRenewalTimestamp>
        <evictionTimestamp>0</evictionTimestamp>
        <serviceUpTimestamp>1616761232774</serviceUpTimestamp>
      </leaseInfo>
      <metadata class="java.util.Collections$EmptyMap"/>
      <homePageUrl>/eureka</homePageUrl>
      <statusPageUrl></statusPageUrl>
      <healthCheckUrl></healthCheckUrl>
      <vipAddress>bench</vipAddress>
      <secureVipAddress>bench</secureVipAddress>
      <isCoordinatingDiscoveryServer>false</isCoordinatingDiscoveryServer>
      <lastUpdatedTimestamp>1616761233030</lastUpdatedTimestamp>
      <lastDirtyTimestamp>1616761232774</lastDirtyTimestamp>
      <actionType>ADDED</actionType>
    </instance>
  </application>
</applications>"#;

    let applications = Applications::from_str(xml).expect("full listing must parse");
    assert_eq!(applications.versions_delta, Some("1".to_string()));
    assert_eq!(applications.apps_hashcode, Some("UP_2_".to_string()));
    assert_eq!(applications.applications.len(), 1);
    assert_eq!(applications.applications[0].name, "BENCH");
    assert_eq!(applications.applications[0].instances.len(), 2);
    assert_eq!(applications.applications[0].instances[0].host_name, "localhost");
    assert_eq!(applications.applications[0].instances[1].host_name, "localhost2");
    assert_eq!(applications.applications[0].instances[1].port.value, 8081);
}
