use sysinfo2mqtt::client::Configuration;
use sysinfo2mqtt::pipeline::{Collector, ConfigError, Scheduler, Settings};
use sysinfo2mqtt::probes::Readings;

fn readings(cpu: u32) -> Readings {
    Readings { cpu_num: Some(cpu), loadavg: None, mem_info: None, disk_info: None }
}

#[test]
fn scheduler_first_trigger_at_once_then_every_interval() {
    let mut s = Scheduler::new(5);
    assert_eq!(s.interval_ms(), 5000);
    assert_eq!(s.next_delay_ms(), 0);
    assert_eq!(s.next_delay_ms(), 5000);
    assert_eq!(s.next_delay_ms(), 5000);
    assert_eq!(s.next_delay_ms(), 5000);
}

#[test]
fn scheduler_largest_interval() {
    let mut s = Scheduler::new(u32::MAX);
    assert_eq!(s.next_delay_ms(), 0);
    assert_eq!(s.next_delay_ms(), u32::MAX as u64 * 1000);
}

#[test]
fn collector_one_snapshot_per_trigger_in_order() {
    let mut c = Collector::new();
    let mut sent = Vec::new();
    for cpu in 1..=3u32 {
        let s = c.on_trigger(readings(cpu)).expect("running collector forwards");
        sent.push(s);
    }
    assert_eq!(sent.len(), 3);
    for (i, s) in sent.iter().enumerate() {
        assert_eq!(s.len(), 1);
        assert!(matches!(s[0], sysinfo2mqtt::probes::Probe::CPUNumber(n) if n == i as u32 + 1));
    }
}

#[test]
fn collector_stops_when_channel_closes() {
    let mut c = Collector::new();
    assert!(c.is_running());
    c.on_channel_closed();
    assert!(!c.is_running());
    assert!(c.on_trigger(readings(1)).is_none());
}

#[test]
fn settings_refuse_zero_interval() {
    let mqtt = Configuration::new("tcp://h:1883".to_string(), None, None);
    assert!(matches!(Settings::new(mqtt, 0), Err(ConfigError::ZeroInterval)));
    let mqtt = Configuration::new("tcp://h:1883".to_string(), None, None);
    let s = Settings::new(mqtt, 5).ok().expect("positive interval is accepted");
    assert_eq!(s.interval, 5);
    assert_eq!(s.mqtt.host, "tcp://h:1883");
}
