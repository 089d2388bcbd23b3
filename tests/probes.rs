use sysinfo2mqtt::client::{flatten, Message};
use sysinfo2mqtt::decimal::decimal_string;
use sysinfo2mqtt::payload::Payload;
use sysinfo2mqtt::probes::{get_probes, Probe, Readings};

fn full_readings() -> Readings {
    Readings {
        cpu_num: Some(4),
        loadavg: Some((0.1f64.to_string(), 0.2f64.to_string(), 0.3f64.to_string())),
        mem_info: Some((1000, 500, 400, 100, 300)),
        disk_info: Some((9000, 4000)),
    }
}

fn kind(p: &Probe) -> u32 {
    match p {
        Probe::CPUNumber(..) => 0,
        Probe::LoadAvg(..) => 1,
        Probe::MemInfo(..) => 2,
        Probe::DiskInfo(..) => 3,
    }
}

#[test]
fn decimal_of_integers() {
    assert_eq!(decimal_string(0), "0");
    assert_eq!(decimal_string(4), "4");
    assert_eq!(decimal_string(10), "10");
    assert_eq!(decimal_string(9000), "9000");
    assert_eq!(decimal_string(u64::MAX), u64::MAX.to_string());
}

#[test]
fn payload_insert_replaces_equal_key() {
    let mut p = Payload::new();
    p.insert("a".to_string(), "1".to_string());
    p.insert("b".to_string(), "2".to_string());
    p.insert("a".to_string(), "3".to_string());
    assert_eq!(p.len(), 2);
    assert_eq!(p.get("a"), Some("3".to_string()));
    assert_eq!(p.get("b"), Some("2".to_string()));
    assert_eq!(p.get("c"), None);
    let (k, v) = p.entry(0);
    assert_eq!((k.as_str(), v.as_str()), ("a", "3"));
}

#[test]
fn snapshot_holds_every_delivered_metric_once() {
    let s = get_probes(full_readings());
    assert_eq!(s.len(), 4);
    let kinds: Vec<u32> = s.iter().map(kind).collect();
    assert_eq!(kinds, vec![0, 1, 2, 3]);
}

#[test]
fn failed_metrics_are_omitted() {
    let r = Readings { cpu_num: None, loadavg: None, mem_info: Some((1, 2, 3, 4, 5)), disk_info: None };
    let s = get_probes(r);
    assert_eq!(s.len(), 1);
    assert!(matches!(s[0], Probe::MemInfo(1, 2, 3, 4, 5)));
    let r = Readings { cpu_num: Some(2), loadavg: None, mem_info: None, disk_info: Some((7, 6)) };
    let kinds: Vec<u32> = get_probes(r).iter().map(kind).collect();
    assert_eq!(kinds, vec![0, 3]);
}

#[test]
fn all_metrics_failed_gives_empty_snapshot() {
    let r = Readings { cpu_num: None, loadavg: None, mem_info: None, disk_info: None };
    assert!(get_probes(r).is_empty());
}

#[test]
fn flattening_full_snapshot() {
    let data = flatten(&get_probes(full_readings()));
    let expected = [
        ("cpu_number", "4"),
        ("load_one", "0.1"),
        ("load_five", "0.2"),
        ("load_fifteen", "0.3"),
        ("mem_total", "1000"),
        ("mem_free", "500"),
        ("mem_avail", "400"),
        ("mem_buffers", "100"),
        ("mem_cached", "300"),
        ("disk_total", "9000"),
        ("disk_free", "4000"),
    ];
    assert_eq!(data.len(), expected.len());
    for (k, v) in expected.iter() {
        assert_eq!(data.get(k), Some(v.to_string()));
    }
}

#[test]
fn probe_write_adds_its_fields() {
    let mut p = Payload::new();
    Probe::DiskInfo(12, 3).write(&mut p);
    assert_eq!(p.len(), 2);
    assert_eq!(p.get("disk_total"), Some("12".to_string()));
    assert_eq!(p.get("disk_free"), Some("3".to_string()));
    Probe::DiskInfo(20, 8).write(&mut p);
    assert_eq!(p.len(), 2);
    assert_eq!(p.get("disk_free"), Some("8".to_string()));
}
