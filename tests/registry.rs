use std::sync::Arc;
use bibi_sync::{Topic, TopicRegistry};

#[test]
fn test_registry_get_or_create() {
    let mut registry = TopicRegistry::new();
    let topic1: Arc<Topic<i32>> = registry.get_or_create("/sensor/temp", 8);
    let topic2: Arc<Topic<f64>> = registry.get_or_create("/sensor/humidity", 16);
    assert_eq!(topic1.name(), "/sensor/temp");
    assert_eq!(topic2.name(), "/sensor/humidity");
    assert_eq!(registry.topic_count(), 2);
}

#[test]
fn test_registry_same_topic_returns_same() {
    let mut registry = TopicRegistry::new();
    let topic1: Arc<Topic<i32>> = registry.get_or_create("/imu", 8);
    topic1.publish(42);
    let topic2: Arc<Topic<i32>> = registry.get_or_create("/imu", 8);
    let val = topic2.try_receive().unwrap();
    assert_eq!(val, 42);
    assert_eq!(registry.topic_count(), 1);
}

#[test]
fn test_registry_byte_topics() {
    let mut registry = TopicRegistry::new();
    let topic1 = registry.get_or_create_byte("/camera/0", 32);
    topic1.publish(&[1, 2, 3]);
    let topic2 = registry.get_or_create_byte("/camera/0", 32);
    let (data, _) = topic2.try_receive().unwrap();
    assert_eq!(data, vec![1, 2, 3]);
}

#[test]
fn registry_sharing_scenario() {
    let mut registry = TopicRegistry::new();
    let t1 = registry.get_or_create_byte("/cam/0", 32);
    assert_eq!(registry.topic_count(), 1);
    assert_eq!(t1.publish(&[0xAB, 0xCD]), Some(1));
    let t2 = registry.get_or_create_byte("/cam/0", 8);
    assert_eq!(registry.topic_count(), 1);
    assert_eq!(t2.try_receive(), Some((vec![0xAB, 0xCD], 1)));
    assert_eq!(t2.capacity(), 32);
    assert_eq!(registry.topic_count(), 1);
}

#[test]
fn typed_and_byte_namespaces_are_independent() {
    let mut registry = TopicRegistry::default();
    let typed: Arc<Topic<u32>> = registry.get_or_create("/x", 4);
    let bytes = registry.get_or_create_byte("/x", 4);
    typed.publish(5);
    assert!(bytes.try_receive().is_none());
    assert_eq!(registry.topic_count(), 2);
}

#[test]
fn typed_lookup_at_another_type_replaces_entry() {
    let mut registry = TopicRegistry::new();
    let a: Arc<Topic<u32>> = registry.get_or_create("/t", 4);
    a.publish(1);
    let b: Arc<Topic<i64>> = registry.get_or_create("/t", 2);
    assert_eq!(b.capacity(), 2);
    assert!(b.try_receive().is_none());
    assert_eq!(registry.topic_count(), 1);
}
