use sysinfo2mqtt::client::{envelope, Client, Configuration};
use sysinfo2mqtt::payload::Payload;
use sysinfo2mqtt::probes::Probe;

fn config() -> Configuration {
    Configuration::new("tcp://localhost:1883".to_string(), Some("user".to_string()), None)
}

#[test]
fn client_topic_and_options() {
    let c = Client::new(&config());
    assert_eq!(c.topic, "sysinfo2mqtt/raspberrypi");
    assert_eq!(c.options.client_id, "raspberrypi");
    assert_eq!(c.options.server_uri, "tcp://localhost:1883");
    assert_eq!(c.options.user_name, Some("user".to_string()));
    assert_eq!(c.options.password, None);
    assert_eq!(c.options.keep_alive_secs, 15);
    assert!(!c.options.clean_session);
}

#[test]
fn configuration_names() {
    let c = config();
    assert_eq!(c.name(), "raspberrypi");
    assert_eq!(c.client_id(), "sysinfo2mqtt");
}

#[test]
fn envelope_wraps_payload_values() {
    let mut p = Payload::new();
    p.insert("cpu_number".to_string(), "4".to_string());
    p.insert("disk_free".to_string(), "4000".to_string());
    assert_eq!(envelope(&p), r#"{"action":"update","values":{"cpu_number":"4","disk_free":"4000"}}"#);
}

#[test]
fn envelope_escapes_strings() {
    let mut p = Payload::new();
    p.insert("a\"b".to_string(), "x\\y\n".to_string());
    assert_eq!(envelope(&p), r#"{"action":"update","values":{"a\"b":"x\\y\n"}}"#);
}

#[test]
fn empty_snapshot_publishes_empty_values() {
    let c = Client::new(&config());
    let m = c.publication(&Vec::<Probe>::new());
    assert_eq!(m.topic, "sysinfo2mqtt/raspberrypi");
    assert_eq!(m.payload, r#"{"action":"update","values":{}}"#);
    assert_eq!(m.qos, 1);
    assert!(m.retained);
}

#[test]
fn publication_of_snapshot() {
    let c = Client::new(&config());
    let m = c.publication(&vec![Probe::CPUNumber(4), Probe::DiskInfo(9000, 4000)]);
    assert_eq!(m.payload, r#"{"action":"update","values":{"cpu_number":"4","disk_total":"9000","disk_free":"4000"}}"#);
    assert_eq!(m.qos, 1);
    assert!(m.retained);
}
