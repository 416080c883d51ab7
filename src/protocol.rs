//! Fixed-layout command payloads carried in UART frames. Integers travel as
//! little-endian bytes.
use vstd::prelude::*;

verus! {

pub const IMU_MSG_SIZE: usize = 36;

pub const ORIENTATION_MSG_SIZE: usize = 12;

pub const DEPTH_MSG_SIZE: usize = 4;

pub const THRUSTER_PWM_SIZE: usize = 24;

pub const LED_CMD_SIZE: usize = 2;

pub const CALIBRATION_CMD_SIZE: usize = 1;

/// PWM pulse widths (microseconds) for the six thrusters.
#[derive(Clone, Copy, Debug, Default)]
pub struct ThrusterPwmCmd {
    pub pwm: [i32; 6],
}

#[derive(Clone, Copy, Debug, Default)]
pub struct LedCmd {
    pub indicator: i16,
}

#[derive(Clone, Copy, Debug, Default)]
pub struct CalibrationCmd {
    pub enable: bool,
}

/// The four little-endian bytes of `x`.
pub open spec fn le_bytes(x: i32) -> Seq<u8> {
    let u = x as u32;
    seq![(u % 256) as u8, ((u / 256) % 256) as u8, ((u / 65536) % 256) as u8, (u / 16777216) as u8]
}

/// The `i32` whose little-endian bytes are `b[0..4]`.
pub open spec fn le_value(b: Seq<u8>) -> i32 {
    (b[0] + 256 * b[1] + 65536 * b[2] + 16777216 * b[3]) as u32 as i32
}

/// The bytes of six values, each as `le_bytes`, in order.
pub open spec fn pwm_bytes(pwm: Seq<i32>) -> Seq<u8> {
    le_bytes(pwm[0]) + le_bytes(pwm[1]) + le_bytes(pwm[2]) + le_bytes(pwm[3]) + le_bytes(pwm[4])
        + le_bytes(pwm[5])
}

/// Decoding the little-endian bytes of a value gives the value back.
pub proof fn lemma_le_round_trip(x: i32)
    ensures
        le_value(le_bytes(x)) == x,
{
    let u = x as u32;
    assert(u == (u % 256) + 256 * ((u / 256) % 256) + 65536 * ((u / 65536) % 256) + 16777216 * (u
        / 16777216)) by (bit_vector);
    assert((x as u32) as i32 == x) by (bit_vector);
}

fn push_le(out: &mut Vec<u8>, x: i32)
    ensures
        final(out)@ == old(out)@ + le_bytes(x),
{
    let u = x as u32;
    out.push((u % 256) as u8);
    out.push(((u / 256) % 256) as u8);
    out.push(((u / 65536) % 256) as u8);
    out.push((u / 16777216) as u8);
    assert(final(out)@ =~= old(out)@ + le_bytes(x));
}

fn read_le(data: &[u8], at: usize) -> (x: i32)
    requires
        at + 4 <= data@.len(),
    ensures
        x == le_value(data@.subrange(at as int, at + 4)),
{
    let u = (data[at] as u32) + 256 * (data[at + 1] as u32) + 65536 * (data[at + 2] as u32)
        + 16777216 * (data[at + 3] as u32);
    u as i32
}

impl ThrusterPwmCmd {
    pub fn new(pwm_values: [i32; 6]) -> (c: Self)
        ensures
            c.pwm == pwm_values,
    {
        ThrusterPwmCmd { pwm: pwm_values }
    }

    /// The command from its first `THRUSTER_PWM_SIZE` bytes; `None` when `data` is shorter.
    pub fn from_bytes(data: &[u8]) -> (r: Option<Self>)
        ensures
            data@.len() < THRUSTER_PWM_SIZE ==> r is None,
            data@.len() >= THRUSTER_PWM_SIZE ==> (r matches Some(c) && forall|k: int|
                0 <= k < 6 ==> #[trigger] c.pwm@[k] == le_value(data@.subrange(4 * k, 4 * k + 4))),
    {
        if data.len() < THRUSTER_PWM_SIZE {
            return None;
        }
        let pwm = [
            read_le(data, 0),
            read_le(data, 4),
            read_le(data, 8),
            read_le(data, 12),
            read_le(data, 16),
            read_le(data, 20),
        ];
        let c = ThrusterPwmCmd { pwm };
        Some(c)
    }

    /// The six values as little-endian bytes, `THRUSTER_PWM_SIZE` in all.
    pub fn to_bytes(&self) -> (v: Vec<u8>)
        ensures
            v@ == pwm_bytes(self.pwm@),
            v@.len() == THRUSTER_PWM_SIZE,
    {
        let mut v: Vec<u8> = Vec::with_capacity(THRUSTER_PWM_SIZE);
        push_le(&mut v, self.pwm[0]);
        push_le(&mut v, self.pwm[1]);
        push_le(&mut v, self.pwm[2]);
        push_le(&mut v, self.pwm[3]);
        push_le(&mut v, self.pwm[4]);
        push_le(&mut v, self.pwm[5]);
        assert(v@ =~= pwm_bytes(self.pwm@));
        v
    }

    /// Decoding an encoded command gives the same six values.
    pub proof fn lemma_bytes_round_trip(c: Self)
        ensures
            forall|k: int|
                0 <= k < 6 ==> #[trigger] le_value(pwm_bytes(c.pwm@).subrange(4 * k, 4 * k + 4))
                    == c.pwm@[k],
    {
        let b = pwm_bytes(c.pwm@);
        assert forall|k: int| 0 <= k < 6 implies #[trigger] le_value(b.subrange(4 * k, 4 * k + 4))
            == c.pwm@[k] by {
            lemma_le_round_trip(c.pwm@[k]);
            assert(b.subrange(4 * k, 4 * k + 4) =~= le_bytes(c.pwm@[k]));
        }
    }
}

} // verus!
