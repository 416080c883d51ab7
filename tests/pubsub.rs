use std::sync::Arc;
use bibi_sync::{BytePublisher, ByteSubscriber, ByteTopic, Message, Publisher, Subscriber, Topic};

#[derive(Clone, Default)]
struct TestMsg {
    x: f32,
    y: f32,
}

#[derive(Clone, Default, Debug, PartialEq)]
struct ImuData {
    accel_x: f32,
    accel_y: f32,
    accel_z: f32,
}

#[test]
fn test_message_trait_imp() {
    fn accepts_message<T: Message>(_: T) {}

    accepts_message(0i32);
    accepts_message(0.0f64);
    accepts_message(true);
    let m = TestMsg { x: 1.0, y: 2.0 };
    assert!(m.x < m.y);
    accepts_message(m);
}

#[test]
fn test_publisher_publish() {
    let topic = Arc::new(Topic::<i32>::new("/test", 8));
    let publisher = Publisher::new(Arc::clone(&topic));
    let e1 = publisher.publish(10);
    let e2 = publisher.publish(20);
    assert_eq!(e1, 1);
    assert_eq!(e2, 2);
    assert_eq!(publisher.topic_name(), "/test");
    assert_eq!(topic.len(), 2);
}

#[test]
fn test_byte_publisher() {
    let topic = Arc::new(ByteTopic::new("/bytes", 8));
    let publisher = BytePublisher::new(Arc::clone(&topic));
    let e1 = publisher.publish(&[1, 2, 3]).unwrap();
    assert_eq!(e1, 1);
    assert_eq!(topic.len(), 1);
}

#[test]
fn test_subscriber_try_recv() {
    let topic = Arc::new(Topic::<i32>::new("/test", 8));
    let subscriber = Subscriber::new(Arc::clone(&topic));

    topic.publish(10);
    topic.publish(20);

    assert_eq!(subscriber.try_recv(), Some(10));
    assert_eq!(subscriber.try_recv(), Some(20));
    assert_eq!(subscriber.try_recv(), None);
}

#[test]
fn test_subscriber_has_new() {
    let topic = Arc::new(Topic::<i32>::new("/test", 8));
    let subscriber = Subscriber::new(Arc::clone(&topic));

    assert!(!subscriber.has_new());

    topic.publish(10);
    assert!(subscriber.has_new());

    subscriber.mark_seen();
    assert!(!subscriber.has_new());

    topic.publish(20);
    assert!(subscriber.has_new());
}

#[test]
fn test_subscriber_peek_latest() {
    let topic = Arc::new(Topic::<i32>::new("/test", 8));
    let subscriber = Subscriber::new(Arc::clone(&topic));

    topic.publish(10);
    topic.publish(20);
    topic.publish(30);

    let (val, epoch) = subscriber.peek_latest().unwrap();
    assert_eq!(val, 30);
    assert_eq!(epoch, 3);

    assert_eq!(topic.len(), 3);
}

#[test]
fn test_typed_topic_publish_subscribe() {
    let topic: Topic<ImuData> = Topic::new("/imu/data", 8);
    let msg1 = ImuData { accel_x: 1.0, accel_y: 2.0, accel_z: 9.8 };
    let msg2 = ImuData { accel_x: 1.1, accel_y: 2.1, accel_z: 9.9 };
    let e1 = topic.publish(msg1.clone());
    let e2 = topic.publish(msg2.clone());
    assert_eq!(e1, 1);
    assert_eq!(e2, 2);
    assert_eq!(topic.len(), 2);
    assert_eq!(topic.name(), "/imu/data");
    let received1 = topic.try_receive().unwrap();
    assert_eq!(received1, msg1);
    let received2 = topic.try_receive().unwrap();
    assert_eq!(received2, msg2);
    assert!(topic.try_receive().is_none());
}

#[test]
fn test_typed_topic_peek_latest() {
    let topic: Topic<i32> = Topic::new("/test/int", 8);
    topic.publish(10);
    topic.publish(20);
    topic.publish(30);
    let (val, epoch) = topic.peek_latest().unwrap();
    assert_eq!(val, 30);
    assert_eq!(epoch, 3);
    assert_eq!(topic.len(), 3);
}

#[test]
fn test_byte_topic_publish_subscribe() {
    let topic = ByteTopic::new("/camera/raw", 8);
    let frame1 = vec![0xAA, 0xBB, 0xCC];
    let frame2 = vec![0x11, 0x22, 0x33, 0x44];
    let e1 = topic.publish(&frame1).unwrap();
    let e2 = topic.publish(&frame2).unwrap();
    assert_eq!(e1, 1);
    assert_eq!(e2, 2);
    assert_eq!(topic.name(), "/camera/raw");
    let (data1, _) = topic.try_receive().unwrap();
    assert_eq!(data1, frame1);
    let (data2, _) = topic.try_receive().unwrap();
    assert_eq!(data2, frame2);
}

#[test]
fn test_topic_clone_shares_buffer() {
    let topic1: Topic<i32> = Topic::new("/shared", 8);
    let topic2 = topic1.clone();
    topic1.publish(100);

    let val = topic2.try_receive().unwrap();
    assert_eq!(val, 100);
    assert!(topic1.try_receive().is_none());
}

#[test]
fn has_new_and_mark_seen_scenario() {
    let topic = Arc::new(Topic::<i32>::new("/scenario", 4));
    topic.publish(10);
    let subscriber = Subscriber::new(Arc::clone(&topic));
    assert!(subscriber.has_new());
    subscriber.mark_seen();
    assert!(!subscriber.has_new());
    topic.publish(20);
    assert!(subscriber.has_new());
    assert_eq!(subscriber.topic_name(), "/scenario");
}

#[test]
fn byte_subscriber_reads_and_tracks() {
    let topic = Arc::new(ByteTopic::new("/b", 4));
    let subscriber = ByteSubscriber::new(Arc::clone(&topic));
    assert!(!subscriber.has_new());
    assert!(topic.publish(&[1, 2]).is_some());
    assert!(subscriber.has_new());
    assert_eq!(subscriber.peek_latest(), Some((vec![1, 2], 1)));
    assert_eq!(subscriber.try_recv(), Some((vec![1, 2], 1)));
    assert_eq!(subscriber.try_recv(), None);
    subscriber.mark_seen();
    assert!(!subscriber.has_new());
    assert_eq!(subscriber.topic_name(), "/b");
}

#[test]
fn byte_topic_rejects_oversized_payload() {
    let topic = ByteTopic::new("/big", 2);
    assert_eq!(topic.publish(&vec![0u8; 245]), None);
    assert_eq!(topic.latest_epoch(), 0);
    assert!(topic.is_empty());
    assert_eq!(topic.capacity(), 2);
}

#[test]
fn topic_capacity_and_buffer_handle() {
    let topic: Topic<u8> = Topic::new("/cap", 3);
    assert_eq!(topic.capacity(), 3);
    assert!(topic.is_empty());
    assert_eq!(topic.latest_epoch(), 0);
    for v in 0..5u8 {
        topic.publish(v);
    }
    assert_eq!(topic.len(), 3);
    let shared = topic.buffer();
    assert!(Arc::ptr_eq(&shared, &topic.buffer()));
}

#[test]
fn publisher_clone_shares_topic() {
    let topic = Arc::new(ByteTopic::new("/p", 4));
    let p1 = BytePublisher::new(Arc::clone(&topic));
    let p2 = p1.clone();
    assert_eq!(p1.publish(&[1]), Some(1));
    assert_eq!(p2.publish(&[2]), Some(2));
    assert_eq!(p2.topic_name(), "/p");
    assert_eq!(topic.len(), 2);
}
