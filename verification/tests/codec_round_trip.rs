use logpose::codec::{decode_health, decode_protocol, decode_runtime, encode_health,
    encode_protocol, encode_runtime};
use logpose::health::HealthStatus;
use logpose::protocol::Protocol;
use logpose::runtime::Runtime;

#[test]
fn health_round_trips_exactly() {
    for h in [HealthStatus::Healthy, HealthStatus::Unhealthy, HealthStatus::Unknown] {
        let text = encode_health(&h);
        assert_eq!(decode_health(&text), h);
    }
    assert_eq!(encode_health(&HealthStatus::Healthy), "Healthy");
    assert_eq!(encode_health(&HealthStatus::Unhealthy), "Unhealthy");
    assert_eq!(encode_health(&HealthStatus::Unknown), "Unknown");
}

#[test]
fn unknown_health_text_reads_as_unknown() {
    assert_eq!(decode_health("Degraded"), HealthStatus::Unknown);
    assert_eq!(decode_health(""), HealthStatus::Unknown);
}

#[test]
fn simple_protocols_round_trip_their_tag_exactly() {
    assert_eq!(encode_protocol(&Protocol::Http), "Http");
    assert_eq!(encode_protocol(&Protocol::Https), "Https");
    assert_eq!(encode_protocol(&Protocol::Tcp), "Tcp");
    assert_eq!(encode_protocol(&Protocol::Grpc), "Grpc");
    assert_eq!(encode_protocol(&Protocol::Udp), "Udp");
    assert!(matches!(decode_protocol("Http"), Protocol::Http));
    assert!(matches!(decode_protocol("Https"), Protocol::Https));
    assert!(matches!(decode_protocol("Tcp"), Protocol::Tcp));
    assert!(matches!(decode_protocol("Grpc"), Protocol::Grpc));
    assert!(matches!(decode_protocol("Udp"), Protocol::Udp));
}

#[test]
fn custom_protocol_round_trips_its_name() {
    let text = encode_protocol(&Protocol::Custom("mqtt".to_string()));
    assert_eq!(text, "Custom:mqtt");
    assert!(matches!(decode_protocol(&text), Protocol::Custom(s) if s == "mqtt"));
    // Even a custom name that shadows a tag survives.
    let text = encode_protocol(&Protocol::Custom("Http".to_string()));
    assert!(matches!(decode_protocol(&text), Protocol::Custom(s) if s == "Http"));
    // An unrecognised stored text is kept whole.
    assert!(matches!(decode_protocol("legacy"), Protocol::Custom(s) if s == "legacy"));
}

#[test]
fn container_runtime_round_trips_its_id() {
    let r = Runtime::Container { container_id: "abc123".to_string() };
    let text = encode_runtime(&r);
    assert_eq!(text, "Container:abc123");
    assert!(matches!(
        decode_runtime(&text),
        Runtime::Container { container_id } if container_id == "abc123"
    ));
}

#[test]
fn vm_runtime_keeps_tag_and_drops_details() {
    let r = Runtime::Vm { provider: Some("kvm".to_string()), id: Some("vm-7".to_string()) };
    let text = encode_runtime(&r);
    assert_eq!(text, "Vm");
    assert!(matches!(
        decode_runtime(&text),
        Runtime::Vm { provider: None, id: None }
    ));
}

#[test]
fn serverless_runtime_keeps_function_name_and_drops_region() {
    let r = Runtime::Serverless {
        function_name: "issue-token".to_string(),
        region: Some("eu-central-1".to_string()),
    };
    let text = encode_runtime(&r);
    assert_eq!(text, "Serverless:issue-token");
    assert!(matches!(
        decode_runtime(&text),
        Runtime::Serverless { function_name, region: None } if function_name == "issue-token"
    ));
}

#[test]
fn custom_runtime_round_trips_its_name() {
    let r = Runtime::Custom("bare-metal".to_string());
    let text = encode_runtime(&r);
    assert_eq!(text, "Custom:bare-metal");
    assert!(matches!(decode_runtime(&text), Runtime::Custom(s) if s == "bare-metal"));
    // An unrecognised stored text is kept whole as a custom runtime.
    assert!(matches!(decode_runtime("chroot"), Runtime::Custom(s) if s == "chroot"));
}
