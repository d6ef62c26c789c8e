use cyclonedds_rs::qos::{
    DurabilityKind, HistoryKind, Qos, ReliabilityKind, DURATION_INFINITE,
};

#[test]
fn test_new() {
    let _qos = Qos::new();
}

#[test]
fn test_reset() {
    let mut qos = Qos::new();
    qos.reset();
}

#[test]
fn qos_defaults_when_unset() {
    let qos = Qos::new();
    assert_eq!(qos.durability(), Ok(DurabilityKind::Volatile));
    let h = qos.history().unwrap();
    assert_eq!(h.kind, HistoryKind::KeepLast);
    assert_eq!(h.depth, 1);
    assert_eq!(qos.deadline(), Ok(DURATION_INFINITE));
    assert_eq!(qos.latency_budget(), Ok(0));
    assert_eq!(qos.reliability().unwrap().kind, ReliabilityKind::BestEffort);
    assert_eq!(qos.writer_data_lifecycle(), Ok(true));
    assert!(!qos.writer_batching());
    assert_eq!(qos.entity_name(), "");
    assert!(qos.partition().unwrap().is_empty());
}

#[test]
fn qos_setter_then_getter() {
    let mut qos = Qos::new();
    qos.qset_durability(DurabilityKind::TransientLocal);
    qos.qset_history(HistoryKind::KeepAll, 7);
    qos.set_partition(&["a", "b"]);
    qos.set_entity_name("writer-1");
    assert_eq!(qos.durability(), Ok(DurabilityKind::TransientLocal));
    assert_eq!(qos.history().unwrap().depth, 7);
    assert_eq!(qos.partition().unwrap(), vec!["a".to_string(), "b".to_string()]);
    assert_eq!(qos.entity_name(), "writer-1");
}

#[test]
fn qos_reset_restores_defaults() {
    let mut qos = Qos::new();
    qos.qset_durability(DurabilityKind::Persistent);
    qos.reset();
    assert!(qos == Qos::new());
}

#[test]
fn qos_merge_fills_only_defaults() {
    let mut a = Qos::new();
    a.qset_durability(DurabilityKind::Transient);
    let mut b = Qos::new();
    b.qset_durability(DurabilityKind::Persistent);
    b.qset_deadline(5);
    a.merge(&b);
    assert_eq!(a.durability(), Ok(DurabilityKind::Transient));
    assert_eq!(a.deadline(), Ok(5));
}

#[test]
fn qos_merge_twice_is_merge_once() {
    let mut once = Qos::new();
    let mut other = Qos::new();
    other.qset_ownership_strength(9);
    other.set_prop("k", "v");
    once.merge(&other);
    let mut twice = once.clone();
    twice.merge(&other);
    assert!(once == twice);
}

#[test]
fn qos_property_upsert_overwrites_first() {
    let mut qos = Qos::new();
    qos.set_prop("a", "1");
    qos.set_prop("b", "2");
    qos.set_prop("a", "3");
    assert_eq!(qos.property_names(), vec!["a".to_string(), "b".to_string()]);
    assert_eq!(qos.prop("a").unwrap().value, "3");
    qos.unset_prop("a");
    assert!(qos.prop("a").is_none());
    assert_eq!(qos.property_names(), vec!["b".to_string()]);
}

#[test]
fn qos_binary_property() {
    let mut qos = Qos::new();
    qos.set_bprop("blob", &[1, 2, 3]);
    assert_eq!(qos.binary_property("blob"), Some(vec![1, 2, 3]));
    assert_eq!(qos.binary_property_names(), vec!["blob".to_string()]);
    qos.unset_bprop("blob");
    assert_eq!(qos.binary_property("blob"), None);
}

#[test]
fn qos_equality_sees_differences() {
    let mut a = Qos::new();
    let b = Qos::new();
    assert!(a == b);
    a.set_transport_priority(3);
    assert!(a != b);
    assert_eq!(a.transport_priority().unwrap().0, 3);
}
