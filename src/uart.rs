//! UART framing: `[SYNC][type][length L][L payload bytes][checksum]`, where the
//! checksum is the 8-bit wrapping sum of type, length and payload. Received
//! frames are published into byte topics named after their message type.
use std::sync::Arc;
use std::sync::atomic::{AtomicBool, Ordering};
use vstd::prelude::*;
use vstd::arithmetic::div_mod::lemma_add_mod_noop_right;
use crate::registry::TopicRegistry;
use crate::topic::ByteTopic;

verus! {

pub const SYNC_BYTE: u8 = 0xAA;

/// Largest payload a frame carries.
pub const MAX_MSG_SIZE: usize = 244;

/// Capacity of the byte topics that received frames are published into.
pub const BRIDGE_TOPIC_CAPACITY: usize = 32;

#[derive(Debug, Clone, Copy, PartialEq, Eq, Structural)]
pub enum MsgType {
    Imu,
    Depth,
    Thruster,
    Heartbeat,
    Command,
    Ack,
}

/// The message type a type byte denotes, if any.
pub open spec fn msg_type_of(b: u8) -> Option<MsgType> {
    if b == 0x01 {
        Some(MsgType::Imu)
    } else if b == 0x02 {
        Some(MsgType::Depth)
    } else if b == 0x03 {
        Some(MsgType::Thruster)
    } else if b == 0x04 {
        Some(MsgType::Heartbeat)
    } else if b == 0x10 {
        Some(MsgType::Command)
    } else if b == 0x11 {
        Some(MsgType::Ack)
    } else {
        None
    }
}

/// The type byte of a message type.
pub open spec fn type_byte(t: MsgType) -> u8 {
    match t {
        MsgType::Imu => 0x01,
        MsgType::Depth => 0x02,
        MsgType::Thruster => 0x03,
        MsgType::Heartbeat => 0x04,
        MsgType::Command => 0x10,
        MsgType::Ack => 0x11,
    }
}

/// The topic that frames of a message type are published to.
pub open spec fn topic_name_of(t: MsgType) -> Seq<char> {
    match t {
        MsgType::Imu => "/stm32/imu"@,
        MsgType::Depth => "/stm32/depth"@,
        MsgType::Thruster => "/stm32/thruster"@,
        MsgType::Heartbeat => "/stm32/heartbeat"@,
        MsgType::Command => "/stm32/command"@,
        MsgType::Ack => "/stm32/ack"@,
    }
}

impl MsgType {
    pub fn from_u8(val: u8) -> (r: Option<Self>)
        ensures
            r == msg_type_of(val),
    {
        match val {
            0x01 => Some(MsgType::Imu),
            0x02 => Some(MsgType::Depth),
            0x03 => Some(MsgType::Thruster),
            0x04 => Some(MsgType::Heartbeat),
            0x10 => Some(MsgType::Command),
            0x11 => Some(MsgType::Ack),
            _ => None,
        }
    }

    pub fn to_u8(&self) -> (b: u8)
        ensures
            b == type_byte(*self),
            msg_type_of(b) == Some(*self),
    {
        match self {
            MsgType::Imu => 0x01,
            MsgType::Depth => 0x02,
            MsgType::Thruster => 0x03,
            MsgType::Heartbeat => 0x04,
            MsgType::Command => 0x10,
            MsgType::Ack => 0x11,
        }
    }

    pub fn to_topic_name(&self) -> (r: &'static str)
        ensures
            r@ == topic_name_of(*self),
    {
        proof {
            reveal_strlit("/stm32/imu");
            reveal_strlit("/stm32/depth");
            reveal_strlit("/stm32/thruster");
            reveal_strlit("/stm32/heartbeat");
            reveal_strlit("/stm32/command");
            reveal_strlit("/stm32/ack");
        }
        match self {
            MsgType::Imu => "/stm32/imu",
            MsgType::Depth => "/stm32/depth",
            MsgType::Thruster => "/stm32/thruster",
            MsgType::Heartbeat => "/stm32/heartbeat",
            MsgType::Command => "/stm32/command",
            MsgType::Ack => "/stm32/ack",
        }
    }
}

#[derive(Debug, Clone)]
pub struct UartFrame {
    pub msg_type: MsgType,
    pub payload: Vec<u8>,
}

/// Sum of the bytes of `s`.
pub open spec fn byte_sum(s: Seq<u8>) -> nat
    decreases s.len(),
{
    if s.len() == 0 {
        0
    } else {
        byte_sum(s.drop_last()) + s.last() as nat
    }
}

/// The 8-bit wrapping sum of `s`.
pub open spec fn checksum_of(s: Seq<u8>) -> u8 {
    (byte_sum(s) % 256) as u8
}

/// The wrapping 8-bit sum of `data`.
pub fn calculate_checksum(data: &[u8]) -> (c: u8)
    ensures
        c == checksum_of(data@),
{
    let mut acc: u8 = 0;
    let mut i: usize = 0;
    while i < data.len()
        invariant
            i <= data@.len(),
            acc == checksum_of(data@.subrange(0, i as int)),
        decreases data@.len() - i,
    {
        proof {
            let s = data@.subrange(0, i as int + 1);
            assert(s.drop_last() =~= data@.subrange(0, i as int));
            lemma_add_mod_noop_right(data@[i as int] as int, byte_sum(data@.subrange(0, i as int)) as int, 256);
        }
        acc = acc.wrapping_add(data[i]);
        i = i + 1;
    }
    assert(data@.subrange(0, data@.len() as int) =~= data@);
    acc
}

/// The bytes of a frame carrying `payload` as a message of type `t`.
pub open spec fn frame_bytes(t: MsgType, payload: Seq<u8>) -> Seq<u8> {
    let body = seq![type_byte(t), payload.len() as u8].add(payload);
    seq![SYNC_BYTE].add(body).push(checksum_of(body))
}

/// The frame for `payload` as a message of type `msg_type`; `None` when the
/// payload is longer than `MAX_MSG_SIZE`.
pub fn encode_frame(msg_type: MsgType, payload: &[u8]) -> (r: Option<Vec<u8>>)
    ensures
        payload@.len() > MAX_MSG_SIZE ==> r is None,
        payload@.len() <= MAX_MSG_SIZE ==> (r matches Some(v) && v@ == frame_bytes(
            msg_type,
            payload@,
        )),
{
    if payload.len() > MAX_MSG_SIZE {
        return None;
    }
    let mut body: Vec<u8> = Vec::with_capacity(2 + payload.len());
    body.push(msg_type.to_u8());
    body.push(payload.len() as u8);
    let mut i: usize = 0;
    while i < payload.len()
        invariant
            i <= payload@.len(),
            body@ == seq![type_byte(msg_type), payload@.len() as u8].add(
                payload@.subrange(0, i as int),
            ),
        decreases payload@.len() - i,
    {
        body.push(payload[i]);
        i = i + 1;
        assert(body@ =~= seq![type_byte(msg_type), payload@.len() as u8].add(
            payload@.subrange(0, i as int),
        ));
    }
    assert(payload@.subrange(0, payload@.len() as int) =~= payload@);
    let checksum = calculate_checksum(body.as_slice());
    let mut frame: Vec<u8> = Vec::with_capacity(4 + payload.len());
    frame.push(SYNC_BYTE);
    let mut j: usize = 0;
    while j < body.len()
        invariant
            j <= body@.len(),
            frame@ == seq![SYNC_BYTE].add(body@.subrange(0, j as int)),
        decreases body@.len() - j,
    {
        frame.push(body[j]);
        j = j + 1;
        assert(frame@ =~= seq![SYNC_BYTE].add(body@.subrange(0, j as int)));
    }
    assert(body@.subrange(0, body@.len() as int) =~= body@);
    frame.push(checksum);
    Some(frame)
}

/// `p` is the position of the first sync byte of `buf`.
pub open spec fn is_first_sync(buf: Seq<u8>, p: int) -> bool {
    &&& 0 <= p < buf.len()
    &&& buf[p] == SYNC_BYTE
    &&& forall|j: int| 0 <= j < p ==> buf[j] != SYNC_BYTE
}

/// The state of a receive buffer after one parsing step, and the frame that step
/// yields. Nothing happens below four bytes or without a sync byte. Otherwise the
/// bytes before the first sync byte are dropped; then a frame that is still
/// incomplete waits, one with an oversized length, a bad checksum or an unknown
/// type loses its leading byte, and a valid one is taken off the front.
pub open spec fn parse_step(buf: Seq<u8>) -> (Seq<u8>, Option<(MsgType, Seq<u8>)>) {
    if buf.len() < 4 || !(exists|p: int| is_first_sync(buf, p)) {
        (buf, None)
    } else {
        let b = buf.skip(choose|p: int| is_first_sync(buf, p));
        let len = b[2] as int;
        if b.len() < 4 {
            (b, None)
        } else if len > MAX_MSG_SIZE {
            (b.skip(1), None)
        } else if b.len() < 4 + len {
            (b, None)
        } else if b[3 + len] != checksum_of(b.subrange(1, 3 + len)) || msg_type_of(b[1]) is None {
            (b.skip(1), None)
        } else {
            (b.skip(4 + len), Some((msg_type_of(b[1])->0, b.subrange(3, 3 + len))))
        }
    }
}

/// Repeated parse steps from `buf` until one yields no frame: the buffer left
/// over and the frames taken, in order.
pub open spec fn parse_all(buf: Seq<u8>) -> (Seq<u8>, Seq<(MsgType, Seq<u8>)>)
    decreases buf.len(),
{
    let (rest, frame) = parse_step(buf);
    match frame {
        Some(f) => if rest.len() < buf.len() {
            let (left, frames) = parse_all(rest);
            (left, seq![f].add(frames))
        } else {
            (rest, seq![f])
        },
        None => (rest, Seq::empty()),
    }
}

/// Drops the first `k` bytes of `rx`.
fn drop_front(rx: &mut Vec<u8>, k: usize)
    requires
        k <= old(rx)@.len(),
    ensures
        final(rx)@ == old(rx)@.skip(k as int),
{
    let rest = rx.split_off(k);
    *rx = rest;
}

/// One parsing step on the receive buffer `rx`, as `parse_step`.
pub fn try_parse_frame(rx: &mut Vec<u8>) -> (r: Option<UartFrame>)
    ensures
        final(rx)@ == parse_step(old(rx)@).0,
        parse_step(old(rx)@).1 is None ==> r is None,
        parse_step(old(rx)@).1 matches Some((t, p)) ==> (r matches Some(f) && f.msg_type == t
            && f.payload@ == p),
        r is Some ==> final(rx)@.len() < old(rx)@.len(),
{
    let ghost buf = rx@;
    if rx.len() < 4 {
        return None;
    }
    let mut pos: usize = 0;
    while pos < rx.len() && rx[pos] != SYNC_BYTE
        invariant
            rx@ == buf,
            pos <= buf.len(),
            forall|j: int| 0 <= j < pos ==> buf[j] != SYNC_BYTE,
        decreases buf.len() - pos,
    {
        pos = pos + 1;
    }
    if pos == rx.len() {
        assert(!(exists|p: int| is_first_sync(buf, p)));
        return None;
    }
    proof {
        assert(is_first_sync(buf, pos as int));
        let q = choose|p: int| is_first_sync(buf, p);
        assert(q == pos as int) by {
            if q < pos as int {
                assert(buf[q] != SYNC_BYTE);
            } else if q > pos as int {
                assert(buf[pos as int] != SYNC_BYTE);
            }
        }
    }
    if pos > 0 {
        drop_front(rx, pos);
    } else {
        assert(buf.skip(0) =~= buf);
    }
    if rx.len() < 4 {
        return None;
    }
    let msg_type_byte = rx[1];
    let len = rx[2] as usize;
    if len > MAX_MSG_SIZE {
        rx.remove(0);
        assert(rx@ =~= buf.skip(pos as int).skip(1));
        return None;
    }
    let frame_len = 4 + len;
    if rx.len() < frame_len {
        return None;
    }
    let checksum = rx[3 + len];
    let calculated = calculate_checksum(&rx.as_slice()[1..3 + len]);
    let msg_type = MsgType::from_u8(msg_type_byte);
    if checksum != calculated || msg_type.is_none() {
        rx.remove(0);
        assert(rx@ =~= buf.skip(pos as int).skip(1));
        return None;
    }
    let rest = rx.split_off(frame_len);
    let mut payload = rx.split_off(3);
    payload.pop();
    let ghost b = buf.skip(pos as int);
    assert(payload@ =~= b.subrange(3, 3 + len as int));
    assert(rest@ =~= b.skip(frame_len as int));
    *rx = rest;
    match msg_type {
        Some(t) => Some(UartFrame { msg_type: t, payload }),
        None => None,
    }
}

/// Publishes `frame`'s payload on the byte topic named after its type, creating
/// that topic with `BRIDGE_TOPIC_CAPACITY` slots if needed. Returns the epoch,
/// or `None` when the payload does not fit a slot.
pub fn publish_frame(registry: &mut TopicRegistry, frame: &UartFrame) -> (r: Option<u64>)
    requires
        old(registry).wf(),
    ensures
        exists|t: ByteTopic|
            old(registry).byte_lookup_post(
                topic_name_of(frame.msg_type),
                BRIDGE_TOPIC_CAPACITY as nat,
                final(registry),
                t,
            ),
        frame.payload@.len() > MAX_MSG_SIZE ==> r is None,
        r matches Some(e) ==> e >= 1,
{
    let name = frame.msg_type.to_topic_name();
    let topic = registry.get_or_create_byte(name, BRIDGE_TOPIC_CAPACITY);
    topic.publish(frame.payload.as_slice())
}

/// Parses every complete frame at the front of `rx` and publishes each, as
/// `publish_frame`. Stops at the first step that yields no frame, leaving `rx`
/// as `parse_all` does; returns the number of frames published.
pub fn process_buffer(rx: &mut Vec<u8>, registry: &mut TopicRegistry) -> (n: usize)
    requires
        old(registry).wf(),
    ensures
        final(registry).wf(),
        final(registry).typed_names() == old(registry).typed_names(),
        final(rx)@ == parse_all(old(rx)@).0,
        n == parse_all(old(rx)@).1.len(),
{
    let mut n: usize = 0;
    let start_len = rx.len();
    loop
        invariant
            start_len == old(rx)@.len(),
            registry.wf(),
            registry.typed_names() == old(registry).typed_names(),
            parse_all(rx@).0 == parse_all(old(rx)@).0,
            n + parse_all(rx@).1.len() == parse_all(old(rx)@).1.len(),
            n <= old(rx)@.len() - rx@.len(),
            rx@.len() <= old(rx)@.len(),
        decreases rx@.len(),
    {
        let ghost before = rx@;
        match try_parse_frame(rx) {
            Some(frame) => {
                assert(parse_all(before) == (parse_all(rx@).0, seq![parse_step(before).1->0].add(parse_all(rx@).1)));
                publish_frame(registry, &frame);
                n = n + 1;
            },
            None => {
                assert(parse_all(before) == (rx@, Seq::<(MsgType, Seq<u8>)>::empty()));
                return n;
            },
        }
    }
}

/// Parsing the frame that `encode_frame` builds yields its type and payload and
/// consumes the frame exactly.
pub proof fn lemma_frame_round_trip(t: MsgType, payload: Seq<u8>)
    requires
        payload.len() <= MAX_MSG_SIZE,
    ensures
        parse_step(frame_bytes(t, payload)) == (Seq::<u8>::empty(), Some((t, payload))),
{
    let buf = frame_bytes(t, payload);
    let len = payload.len() as int;
    let body = seq![type_byte(t), payload.len() as u8].add(payload);
    assert(is_first_sync(buf, 0));
    let q = choose|p: int| is_first_sync(buf, p);
    assert(q == 0) by {
        if q > 0 {
            assert(buf[0] != SYNC_BYTE);
        }
    }
    assert(buf.skip(0) =~= buf);
    assert(buf[2] as int == len);
    assert(buf.subrange(1, 3 + len) =~= body);
    assert(buf.subrange(3, 3 + len) =~= payload);
    assert(buf.skip(4 + len) =~= Seq::<u8>::empty());
    assert(msg_type_of(buf[1]) == Some(t));
}

/// Asks a running bridge to stop.
pub fn stop_bridge(running: &Arc<AtomicBool>) {
    running.store(false, Ordering::SeqCst);
}

} // verus!
