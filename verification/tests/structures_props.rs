use eureka_client::structures::AppMetaDataType;
use eureka_client::EurekaError;

#[test]
fn metadata_insert_replaces_equal_keys_in_place() {
    let mut meta = AppMetaDataType::default();
    meta.insert("zone".to_string(), "a".to_string());
    meta.insert("rack".to_string(), "r1".to_string());
    meta.insert("zone".to_string(), "b".to_string());
    assert_eq!(meta.map.len(), 2);
    assert_eq!(meta.map[0].0, "zone");
    assert_eq!(meta.map[0].1, "b");
    assert_eq!(meta.map[1].0, "rack");
    assert_eq!(meta.get("zone").unwrap(), "b");
    assert_eq!(meta.get("rack").unwrap(), "r1");
    assert!(meta.get("row").is_none());
}

#[test]
fn metadata_round_trips_through_its_document() {
    let mut meta = AppMetaDataType::default();
    meta.class = Some("java.util.Collections$EmptyMap".to_string());
    meta.insert("a".to_string(), "x<y".to_string());
    let doc = meta.to_string().unwrap();
    assert_eq!(
        doc,
        "<metadata class=\"java.util.Collections$EmptyMap\"><a>x&lt;y</a></metadata>"
    );
    let back = AppMetaDataType::from_str(&doc).unwrap();
    assert_eq!(back, meta);
}

#[test]
fn error_descriptions_name_the_cause() {
    assert_eq!(
        EurekaError::Network("timed out".to_string()).describe(),
        "network failure: timed out"
    );
    assert_eq!(EurekaError::Request(503).describe(), "unexpected status code 503");
    assert_eq!(
        EurekaError::UnexpectedState("Instance does not exist".to_string()).describe(),
        "unexpected state: Instance does not exist"
    );
    assert_eq!(
        EurekaError::ParseError("bad token".to_string()).describe(),
        "parse error: bad token"
    );
}
