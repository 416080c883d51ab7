//! Shared-memory publish/subscribe over fixed-capacity ring buffers with
//! drop-oldest overflow and per-record epochs.

pub mod epochs;
pub mod ring_buffer;
pub mod byte_buffer;
pub mod message;
pub mod topic;
pub mod publisher;
pub mod subscriber;
pub mod registry;
pub mod uart;
pub mod protocol;

pub use ring_buffer::RingBuffer;
pub use byte_buffer::{ByteRingBuffer, ByteSlot, HEADER_SIZE, MAX_PAYLOAD_SIZE, SLOT_SIZE};
pub use message::Message;
pub use topic::{ByteTopic, Topic};
pub use publisher::{BytePublisher, Publisher};
pub use subscriber::{ByteSubscriber, Subscriber};
pub use registry::TopicRegistry;
pub use uart::{MsgType, UartFrame};
pub use protocol::{CalibrationCmd, LedCmd, ThrusterPwmCmd};
