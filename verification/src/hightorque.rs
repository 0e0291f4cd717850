//! HighTorque motors (`ht_can` v1.5.5): the frames that command them, the decoding
//! of their status replies, and a controller that drives them over a `CanBus`.
//!
//! Commands travel in extended frames addressed `0x8000 | motor_id`. Positions,
//! velocities and torques travel as little-endian `i16` raw values; the unit
//! conversions (turns, rad/s, N·m) are done by the caller.
use vstd::prelude::*;
use crate::bus::{BusCall, CanBus, CanFrame, FrameView};
use crate::error::{error_text, MotorError};
use crate::text::{
    chars_eq, chars_of, dec_text, lower_seq, push_dec, to_ascii_lower, trim, trim_chars,
};

verus! {

/// The extended identifier that addresses `motor_id`.
pub open spec fn ext_id(motor_id: u16) -> u32 {
    (0x8000u16 | motor_id) as u32
}

pub fn can_ext_id_for_motor(motor_id: u16) -> (r: u32)
    ensures
        r == ext_id(motor_id),
{
    (0x8000u16 | motor_id) as u32
}

/// The eight data bytes of a frame carrying `payload`: its first eight bytes, then zeros.
pub open spec fn padded(payload: Seq<u8>) -> Seq<u8> {
    Seq::new(8, |k: int| if k < payload.len() { payload[k] } else { 0u8 })
}

/// The bytes of `v` in little-endian order.
pub open spec fn le_lo(v: i16) -> u8 {
    ((v as u16) % 256) as u8
}

pub open spec fn le_hi(v: i16) -> u8 {
    ((v as u16) / 256) as u8
}

/// The `i16` whose little-endian bytes are `lo`, `hi` (`i16::from_le_bytes`).
pub open spec fn le_i16(lo: u8, hi: u8) -> i16 {
    (lo as int + 256 * (hi as int)) as i16
}

pub fn i16_from_le(lo: u8, hi: u8) -> (v: i16)
    ensures
        v == le_i16(lo, hi),
{
    let u: u16 = (lo as u16) + (hi as u16) * 256;
    u as i16
}

pub fn i16_to_le(v: i16) -> (r: (u8, u8))
    ensures
        r.0 == le_lo(v),
        r.1 == le_hi(v),
{
    let u = v as u16;
    ((u % 256) as u8, (u / 256) as u8)
}

/// An `i16` written as little-endian bytes and read back is the same value.
pub proof fn le_round_trip(v: i16)
    ensures
        le_i16(le_lo(v), le_hi(v)) == v,
{
    let u = v as u16;
    assert(((u % 256) as u8) as u16 + 256 * (((u / 256) as u8) as u16) == u) by (bit_vector);
    assert(u as i16 == v) by (bit_vector)
        requires
            u == v as u16,
    ;
}

/// Two bytes read as a little-endian `i16` and written back are the same bytes.
pub proof fn le_bytes_round_trip(low: u8, high: u8)
    ensures
        le_lo(le_i16(low, high)) == low,
        le_hi(le_i16(low, high)) == high,
{
    let u: u16 = (low as u16 + 256 * (high as u16)) as u16;
    assert(low as int + 256 * (high as int) == u as int) by (bit_vector)
        requires
            u == (low as u16 + 256 * (high as u16)) as u16,
    ;
    assert((u as i16) as u16 == u) by (bit_vector);
    assert(((u % 256) as u8) == low && ((u / 256) as u8) == high) by (bit_vector)
        requires
            u == (low as u16 + 256 * (high as u16)) as u16,
    ;
}

/// An extended, outgoing command frame for `motor_id` carrying `payload`.
pub open spec fn command_frame(motor_id: u16, payload: Seq<u8>, dlc: u8) -> FrameView {
    FrameView {
        arbitration_id: ext_id(motor_id),
        data: padded(payload),
        dlc: if dlc <= 8 { dlc } else { 8u8 },
        is_extended: true,
        is_rx: false,
    }
}

/// The frame for `payload` with data length `dlc`: payload bytes beyond the eighth
/// are dropped and `dlc` is capped at eight.
pub fn ext_frame(motor_id: u16, payload: &[u8], dlc: u8) -> (f: CanFrame)
    ensures
        f.arbitration_id == ext_id(motor_id),
        f.data@ == padded(payload@),
        f.dlc == (if dlc <= 8 { dlc } else { 8u8 }),
        f.is_extended,
        !f.is_rx,
{
    let mut data = [0u8; 8];
    let n = if payload.len() < 8 { payload.len() } else { 8 };
    let mut k: usize = 0;
    while k < n
        invariant
            n <= 8,
            n <= payload@.len(),
            n == payload@.len() || n == 8,
            k <= n,
            forall|j: int| 0 <= j < k ==> data@[j] == payload@[j],
            forall|j: int| k <= j < 8 ==> data@[j] == 0u8,
        decreases n - k,
    {
        data[k] = payload[k];
        k = k + 1;
    }
    assert(data@ =~= padded(payload@));
    CanFrame {
        arbitration_id: can_ext_id_for_motor(motor_id),
        data,
        dlc: if dlc <= 8 {
            dlc
        } else {
            8
        },
        is_extended: true,
        is_rx: false,
    }
}

/// A status reply's content: the motor it came from and its raw readings.
#[derive(Clone, Copy, Debug, PartialEq, Eq, Structural)]
pub struct HighTorqueStatus {
    pub motor_id: u16,
    pub pos_raw: i16,
    pub vel_raw: i16,
    pub tqe_raw: i16,
}

/// Whether `frame` is a read reply (`0x27 0x01` and eight data bytes).
pub open spec fn is_read_reply(frame: CanFrame) -> bool {
    frame.dlc >= 8 && frame.data@[0] == 0x27u8 && frame.data@[1] == 0x01u8
}

/// The motor id a reply's identifier carries, keeping `mask` of its low bits; a
/// standard identifier whose low byte is zero carries the id in its second byte.
pub open spec fn reply_motor_id(frame: CanFrame, mask: u32) -> u32 {
    if !frame.is_extended && frame.arbitration_id & 0xFF == 0 {
        (frame.arbitration_id >> 8u32) & 0x7F
    } else {
        frame.arbitration_id & mask
    }
}

/// The status a read reply reports, with an 11-bit motor id.
pub open spec fn reply_status(frame: CanFrame) -> Option<HighTorqueStatus> {
    if is_read_reply(frame) {
        Some(
            HighTorqueStatus {
                motor_id: reply_motor_id(frame, 0x7FF) as u16,
                pos_raw: le_i16(frame.data@[2], frame.data@[3]),
                vel_raw: le_i16(frame.data@[4], frame.data@[5]),
                tqe_raw: le_i16(frame.data@[6], frame.data@[7]),
            },
        )
    } else {
        None
    }
}

/// A read reply decodes to the motor and readings it carries: the readings as
/// little-endian `i16`s after `0x27 0x01`, the motor in an extended identifier up to
/// `0x7FF`, or in the second byte of a standard identifier (ids `1..=0x7F`).
pub proof fn reply_round_trip(frame: CanFrame, motor_id: u16, pos: i16, vel: i16, tqe: i16)
    requires
        frame.dlc == 8,
        frame.data@ == seq![0x27u8, 0x01, le_lo(pos), le_hi(pos), le_lo(vel), le_hi(vel), le_lo(tqe), le_hi(tqe)],
        (frame.is_extended && frame.arbitration_id == motor_id as u32 && motor_id <= 0x7FF) || (
        !frame.is_extended && frame.arbitration_id == (motor_id as u32) * 256 && 1 <= motor_id
            <= 0x7F),
    ensures
        reply_status(frame) == Some(
            HighTorqueStatus { motor_id, pos_raw: pos, vel_raw: vel, tqe_raw: tqe },
        ),
{
    le_round_trip(pos);
    le_round_trip(vel);
    le_round_trip(tqe);
    let id = frame.arbitration_id;
    let m = motor_id as u32;
    if frame.is_extended {
        assert(id & 0x7FF == id) by (bit_vector)
            requires
                id <= 0x7FF,
        ;
    } else {
        assert(id & 0xFF != 0 || ((id >> 8u32) & 0x7F == m)) by (bit_vector)
            requires
                id == m * 256,
                1 <= m <= 0x7F,
        ;
        assert(id & 0xFF == 0) by (bit_vector)
            requires
                id == m * 256,
                m <= 0x7F,
        ;
    }
}

/// Decodes a read reply; any other frame gives `None`.
pub fn decode_hightorque_read_reply(frame: CanFrame) -> (r: Option<HighTorqueStatus>)
    ensures
        r == reply_status(frame),
{
    if frame.dlc < 8 || frame.data[0] != 0x27 || frame.data[1] != 0x01 {
        return None;
    }
    let motor_id = if !frame.is_extended && (frame.arbitration_id & 0x00FF) == 0 {
        ((frame.arbitration_id >> 8) & 0x7F) as u16
    } else {
        (frame.arbitration_id & 0x7FF) as u16
    };
    Some(
        HighTorqueStatus {
            motor_id,
            pos_raw: i16_from_le(frame.data[2], frame.data[3]),
            vel_raw: i16_from_le(frame.data[4], frame.data[5]),
            tqe_raw: i16_from_le(frame.data[6], frame.data[7]),
        },
    )
}

/// The status `frame` reports for `motor_id`; replies from other motors and other frames give `None`.
pub fn status_for_motor(frame: CanFrame, motor_id: u16) -> (r: Option<HighTorqueStatus>)
    ensures
        r == (match reply_status(frame) {
            Some(s) => if s.motor_id == motor_id {
                Some(s)
            } else {
                None
            },
            None => None,
        }),
{
    match decode_hightorque_read_reply(frame) {
        Some(s) => if s.motor_id == motor_id {
            Some(s)
        } else {
            None
        },
        None => None,
    }
}

/// The text of the error for a payload longer than a frame.
pub open spec fn payload_too_long_text() -> Seq<char> {
    "payload too long (max 8 bytes)"@
}

/// Sends `payload` (at most eight bytes) to `motor_id`, with the payload's length as
/// the data length. Errors come back as their text.
pub fn send_hightorque_ext<B: CanBus>(bus: &mut B, motor_id: u16, payload: &[u8]) -> (r: Result<
    (),
    String,
>)
    ensures
        payload@.len() > 8 ==> (r matches Err(m) && m@ == payload_too_long_text() && final(bus).sent()
            == old(bus).sent()),
        payload@.len() <= 8 && r is Ok ==> final(bus).sent() == old(bus).sent().push(
            command_frame(motor_id, payload@, payload@.len() as u8),
        ),
        payload@.len() <= 8 && r is Err ==> final(bus).sent() == old(bus).sent(),
        payload@.len() > 8 ==> final(bus).calls() == old(bus).calls(),
        payload@.len() <= 8 ==> {
            &&& final(bus).calls() == old(bus).calls().push(final(bus).calls().last())
            &&& final(bus).calls().last() matches BusCall::Send(f, x)
            &&& f == command_frame(motor_id, payload@, payload@.len() as u8)
            &&& x is Ok ==> r is Ok
            &&& x matches Err(e) ==> r matches Err(m) && m@ == error_text(e)
        },
{
    if payload.len() > 8 {
        return Err(String::from_str("payload too long (max 8 bytes)"));
    }
    let frame = ext_frame(motor_id, payload, payload.len() as u8);
    assert(frame@ == command_frame(motor_id, payload@, payload@.len() as u8));
    match bus.send(frame) {
        Ok(()) => Ok(()),
        Err(e) => Err(e.to_string()),
    }
}

/// The request for a motor's status (`0x17 0x01`).
pub open spec fn read_request() -> Seq<u8> {
    seq![0x17u8, 0x01, 0, 0, 0, 0, 0, 0]
}

/// Stop (`0x01 0x00 0x00`).
pub open spec fn stop_payload() -> Seq<u8> {
    seq![0x01u8, 0x00, 0x00]
}

/// Store the parameters in flash (`0x05 0xB3 0x02 0x00 0x00`).
pub open spec fn store_payload() -> Seq<u8> {
    seq![0x05u8, 0xB3, 0x02, 0x00, 0x00]
}

/// Make the present position the zero position.
pub open spec fn rezero_payload() -> Seq<u8> {
    seq![0x40u8, 0x01, 0x04, 0x64, 0x20, 0x63, 0x0A]
}

/// Position, velocity and torque together (`0x07 0x35`, then velocity, torque, position).
pub open spec fn pos_vel_tqe_payload(pos_raw: i16, vel_raw: i16, tqe_raw: i16) -> Seq<u8> {
    seq![
        0x07u8,
        0x35,
        le_lo(vel_raw),
        le_hi(vel_raw),
        le_lo(tqe_raw),
        le_hi(tqe_raw),
        le_lo(pos_raw),
        le_hi(pos_raw),
    ]
}

/// Velocity with a torque limit (`0x07 0x07 0x00 0x80`, then velocity and torque).
pub open spec fn vel_tqe_payload(vel_raw: i16, tqe_raw: i16) -> Seq<u8> {
    seq![0x07u8, 0x07, 0x00, 0x80, le_lo(vel_raw), le_hi(vel_raw), le_lo(tqe_raw), le_hi(tqe_raw)]
}

pub fn pos_vel_tqe_bytes(pos_raw: i16, vel_raw: i16, tqe_raw: i16) -> (d: [u8; 8])
    ensures
        d@ == pos_vel_tqe_payload(pos_raw, vel_raw, tqe_raw),
{
    let (v0, v1) = i16_to_le(vel_raw);
    let (t0, t1) = i16_to_le(tqe_raw);
    let (p0, p1) = i16_to_le(pos_raw);
    let d = [0x07, 0x35, v0, v1, t0, t1, p0, p1];
    assert(d@ =~= pos_vel_tqe_payload(pos_raw, vel_raw, tqe_raw));
    d
}

pub fn vel_tqe_bytes(vel_raw: i16, tqe_raw: i16) -> (d: [u8; 8])
    ensures
        d@ == vel_tqe_payload(vel_raw, tqe_raw),
{
    let (v0, v1) = i16_to_le(vel_raw);
    let (t0, t1) = i16_to_le(tqe_raw);
    let d = [0x07, 0x07, 0x00, 0x80, v0, v1, t0, t1];
    assert(d@ =~= vel_tqe_payload(vel_raw, tqe_raw));
    d
}

/// What a HighTorque motor last reported: its raw readings and the frame's identifier.
#[derive(Clone, Copy, Debug, PartialEq, Eq, Structural)]
pub struct HightorqueRawFeedback {
    pub can_id: u8,
    pub arbitration_id: u32,
    pub status_code: u8,
    pub pos_raw: i16,
    pub vel_raw: i16,
    pub tqe_raw: i16,
}

/// The feedback a read reply reports, with a 7-bit motor id.
pub open spec fn reply_feedback(frame: CanFrame) -> Option<HightorqueRawFeedback> {
    if is_read_reply(frame) {
        Some(
            HightorqueRawFeedback {
                can_id: reply_motor_id(frame, 0x7F) as u8,
                arbitration_id: frame.arbitration_id,
                status_code: 0,
                pos_raw: le_i16(frame.data@[2], frame.data@[3]),
                vel_raw: le_i16(frame.data@[4], frame.data@[5]),
                tqe_raw: le_i16(frame.data@[6], frame.data@[7]),
            },
        )
    } else {
        None
    }
}

/// A read reply's feedback names the motor the reply came from, in an extended
/// identifier up to `0x7F` or in the second byte of a standard identifier (ids
/// `1..=0x7F`), and carries the readings as the little-endian `i16`s after
/// `0x27 0x01`.
pub proof fn feedback_round_trip(frame: CanFrame, motor_id: u16, pos: i16, vel: i16, tqe: i16)
    requires
        frame.dlc == 8,
        frame.data@ == seq![0x27u8, 0x01, le_lo(pos), le_hi(pos), le_lo(vel), le_hi(vel), le_lo(tqe), le_hi(tqe)],
        (frame.is_extended && frame.arbitration_id == motor_id as u32 && motor_id <= 0x7F) || (
        !frame.is_extended && frame.arbitration_id == (motor_id as u32) * 256 && 1 <= motor_id
            <= 0x7F),
    ensures
        reply_feedback(frame) == Some(
            HightorqueRawFeedback {
                can_id: motor_id as u8,
                arbitration_id: frame.arbitration_id,
                status_code: 0,
                pos_raw: pos,
                vel_raw: vel,
                tqe_raw: tqe,
            },
        ),
{
    le_round_trip(pos);
    le_round_trip(vel);
    le_round_trip(tqe);
    let id = frame.arbitration_id;
    let m = motor_id as u32;
    if frame.is_extended {
        assert(id & 0x7F == id) by (bit_vector)
            requires
                id <= 0x7F,
        ;
    } else {
        assert((id >> 8u32) & 0x7F == m) by (bit_vector)
            requires
                id == m * 256,
                1 <= m <= 0x7F,
        ;
        assert(id & 0xFF == 0) by (bit_vector)
            requires
                id == m * 256,
                m <= 0x7F,
        ;
    }
}

/// A frame gives feedback exactly when it gives a status, with the same readings and
/// the status's motor id kept to its low seven bits.
pub proof fn feedback_agrees_with_status(frame: CanFrame)
    ensures
        (reply_feedback(frame) is Some) == (reply_status(frame) is Some),
        reply_feedback(frame) matches Some(f) ==> reply_status(frame) matches Some(s) && f.can_id
            as int == s.motor_id as int % 128 && f.pos_raw == s.pos_raw && f.vel_raw == s.vel_raw
            && f.tqe_raw == s.tqe_raw && f.arbitration_id == frame.arbitration_id,
{
    let id = frame.arbitration_id;
    assert((id & 0x7FF) % 128 == id & 0x7F && id & 0x7F < 128 && id & 0x7FF < 0x800) by (bit_vector);
    assert((id >> 8u32) & 0x7F < 128) by (bit_vector);
}

pub fn decode_read_reply(frame: CanFrame) -> (r: Option<HightorqueRawFeedback>)
    ensures
        r == reply_feedback(frame),
{
    if frame.dlc < 8 {
        return None;
    }
    if frame.data[0] != 0x27 || frame.data[1] != 0x01 {
        return None;
    }
    let can_id = if !frame.is_extended && (frame.arbitration_id & 0x00FF) == 0 {
        ((frame.arbitration_id >> 8) & 0x7F) as u8
    } else {
        (frame.arbitration_id & 0x7F) as u8
    };
    Some(
        HightorqueRawFeedback {
            can_id,
            arbitration_id: frame.arbitration_id,
            status_code: 0,
            pos_raw: i16_from_le(frame.data[2], frame.data[3]),
            vel_raw: i16_from_le(frame.data[4], frame.data[5]),
            tqe_raw: i16_from_le(frame.data[6], frame.data[7]),
        },
    )
}

/// Whether a model hint names a HighTorque motor: empty, `hightorque`, `ht`, `auto` or
/// `default`, in any ASCII case and with white space around it.
pub open spec fn hightorque_model_ok(model: Seq<char>) -> bool {
    let m = lower_seq(trim(model));
    m.len() == 0 || m == "hightorque"@ || m == "ht"@ || m == "auto"@ || m == "default"@
}

pub fn is_hightorque_model(model: &str) -> (r: bool)
    ensures
        r == hightorque_model_ok(model@),
{
    let all = chars_of(model);
    let t = trim_chars(all.as_slice());
    let m = to_ascii_lower(t.as_slice());
    if m.len() == 0 {
        return true;
    }
    let a = chars_of("hightorque");
    let b = chars_of("ht");
    let c = chars_of("auto");
    let d = chars_of("default");
    chars_eq(m.as_slice(), a.as_slice()) || chars_eq(m.as_slice(), b.as_slice()) || chars_eq(
        m.as_slice(),
        c.as_slice(),
    ) || chars_eq(m.as_slice(), d.as_slice())
}

pub open spec fn unsupported_model_text(model: Seq<char>) -> Seq<char> {
    "unsupported HighTorque model hint: "@ + model
}

pub open spec fn mode_range_text() -> Seq<char> {
    "HighTorque mode must be 1(MIT)/2(POS_VEL)/3(VEL)/4(FORCE_POS)"@
}

/// A bus of HighTorque motors.
pub struct HightorqueController<B: CanBus> {
    bus: B,
}

impl<B: CanBus> HightorqueController<B> {
    pub closed spec fn the_bus(&self) -> B {
        self.bus
    }

    /// A controller on an already open bus.
    pub fn new(bus: B) -> (c: Self)
        ensures
            c.the_bus() == bus,
    {
        HightorqueController { bus }
    }

    /// A controller on the bus that `open` opens for `channel`; its failure is returned.
    pub fn new_socketcan<F: FnOnce(&str) -> Result<B, MotorError>>(channel: &str, open: F) -> (r:
        Result<Self, MotorError>)
        requires
            open.requires((channel,)),
        ensures
            match r {
                Ok(c) => open.ensures((channel,), Ok::<B, MotorError>(c.the_bus())),
                Err(e) => open.ensures((channel,), Err::<B, MotorError>(e)),
            },
    {
        match open(channel) {
            Ok(bus) => Ok(HightorqueController { bus }),
            Err(e) => Err(e),
        }
    }

    pub fn bus_mut(&mut self) -> (b: &mut B)
        ensures
            *b == old(self).the_bus(),
            final(self).the_bus() == *final(b),
    {
        &mut self.bus
    }

    /// Receives (and drops) at most one frame; bus errors are returned.
    pub fn poll_feedback_once(&mut self) -> (r: Result<(), MotorError>)
        ensures
            final(self).the_bus().calls() == old(self).the_bus().calls().push(
                final(self).the_bus().calls().last(),
            ),
            final(self).the_bus().calls().last() matches BusCall::Recv(t, got) && t == 0 && r == match got {
                Ok(_) => Ok::<(), MotorError>(()),
                Err(e) => Err::<(), MotorError>(e),
            },
            final(self).the_bus().sent() == old(self).the_bus().sent(),
            final(self).the_bus().received() == old(self).the_bus().received() || (exists|
                f: CanFrame,
            | final(self).the_bus().received() == old(self).the_bus().received().push(f)),
    {
        match self.bus.recv(0) {
            Ok(_) => Ok(()),
            Err(e) => Err(e),
        }
    }

    /// HighTorque motors need no enabling: always succeeds and sends nothing.
    pub fn enable_all(&self) -> (r: Result<(), MotorError>)
        ensures
            r is Ok,
    {
        Ok(())
    }

    /// Nothing to disable as a group: always succeeds and sends nothing.
    pub fn disable_all(&self) -> (r: Result<(), MotorError>)
        ensures
            r is Ok,
    {
        Ok(())
    }

    /// Shuts the bus down.
    pub fn shutdown(&mut self) -> (r: Result<(), MotorError>)
        ensures
            final(self).the_bus().sent() == old(self).the_bus().sent(),
            final(self).the_bus().calls() == old(self).the_bus().calls().push(BusCall::Shutdown(r)),
    {
        self.bus.shutdown()
    }

    /// Shuts the bus down.
    pub fn close_bus(&mut self) -> (r: Result<(), MotorError>)
        ensures
            final(self).the_bus().sent() == old(self).the_bus().sent(),
            final(self).the_bus().calls() == old(self).the_bus().calls().push(BusCall::Shutdown(r)),
    {
        self.bus.shutdown()
    }
}

impl<B: CanBus + Clone> HightorqueController<B> {
    /// A motor on this controller's bus; the model hint must name a HighTorque motor.
    pub fn add_motor(&self, motor_id: u16, feedback_id: u16, model: &str) -> (r: Result<
        HightorqueMotor<B>,
        MotorError,
    >)
        ensures
            hightorque_model_ok(model@) ==> (r matches Ok(m) && m.id() == motor_id
                && m.state_of() is None),
            !hightorque_model_ok(model@) ==> (r matches Err(MotorError::InvalidArgument(e)) && e@
                == unsupported_model_text(model@)),
    {
        if !is_hightorque_model(model) {
            let mut m = String::from_str("unsupported HighTorque model hint: ");
            m.append(model);
            return Err(MotorError::InvalidArgument(m));
        }
        Ok(HightorqueMotor::new(motor_id, feedback_id, model, self.bus.clone()))
    }
}

/// One HighTorque motor, with its own handle on the bus and the last status it reported.
pub struct HightorqueMotor<B: CanBus> {
    pub motor_id: u16,
    bus: B,
    state: Option<HightorqueRawFeedback>,
}

impl<B: CanBus> HightorqueMotor<B> {
    pub closed spec fn the_bus(&self) -> B {
        self.bus
    }

    /// The motor's id on the bus.
    pub closed spec fn id(&self) -> u16 {
        self.motor_id
    }

    pub closed spec fn state_of(&self) -> Option<HightorqueRawFeedback> {
        self.state
    }

    /// Frames this motor has sent so far.
    pub open spec fn sent(&self) -> Seq<FrameView> {
        self.the_bus().sent()
    }

    pub fn new(motor_id: u16, feedback_id: u16, model: &str, bus: B) -> (m: Self)
        ensures
            m.id() == motor_id,
            m.the_bus() == bus,
            m.state_of() is None,
    {
        HightorqueMotor { motor_id, bus, state: None }
    }

    /// The last status this motor reported, if any.
    pub fn latest_state(&self) -> (r: Option<HightorqueRawFeedback>)
        ensures
            r == self.state_of(),
    {
        self.state
    }

    /// Sends `payload` with data length `dlc` to this motor.
    fn send_ext(&mut self, payload: &[u8], dlc: u8) -> (r: Result<(), MotorError>)
        ensures
            final(self).id() == old(self).id(),
            final(self).state_of() == old(self).state_of(),
            r is Ok ==> final(self).sent() == old(self).sent().push(
                command_frame(old(self).id(), payload@, dlc),
            ),
            r is Err ==> final(self).sent() == old(self).sent(),
            final(self).the_bus().calls() == old(self).the_bus().calls().push(
                BusCall::Send(command_frame(old(self).id(), payload@, dlc), r),
            ),
    {
        let frame = ext_frame(self.motor_id, payload, dlc);
        assert(frame@ == command_frame(self.motor_id, payload@, dlc));
        self.bus.send(frame)
    }

    /// HighTorque motors need no enabling: always succeeds and sends nothing.
    pub fn enable(&self) -> (r: Result<(), MotorError>)
        ensures
            r is Ok,
    {
        Ok(())
    }

    /// Stops the motor.
    pub fn disable(&mut self) -> (r: Result<(), MotorError>)
        ensures
            final(self).id() == old(self).id(),
            final(self).state_of() == old(self).state_of(),
            r is Ok ==> final(self).sent() == old(self).sent().push(
                command_frame(old(self).id(), stop_payload(), 3),
            ),
            r is Err ==> final(self).sent() == old(self).sent(),
            final(self).the_bus().calls() == old(self).the_bus().calls().push(
                BusCall::Send(command_frame(old(self).id(), stop_payload(), 3), r),
            ),
    {
        self.send_stop()
    }

    /// Not available on HighTorque motors: always refused, nothing sent.
    pub fn clear_error(&self) -> (r: Result<(), MotorError>)
        ensures
            r matches Err(MotorError::InvalidArgument(m)) && m@
                == "clear_error is not supported for HighTorque"@,
    {
        Err(MotorError::InvalidArgument(String::from_str("clear_error is not supported for HighTorque")))
    }

    /// Asks the motor to take its present position as zero (the first half of
    /// `set_zero_position`; the parameters are stored a second later).
    pub fn send_zero_position(&mut self) -> (r: Result<(), MotorError>)
        ensures
            final(self).id() == old(self).id(),
            final(self).state_of() == old(self).state_of(),
            r is Ok ==> final(self).sent() == old(self).sent().push(
                command_frame(old(self).id(), rezero_payload(), 7),
            ),
            r is Err ==> final(self).sent() == old(self).sent(),
            final(self).the_bus().calls() == old(self).the_bus().calls().push(
                BusCall::Send(command_frame(old(self).id(), rezero_payload(), 7), r),
            ),
    {
        let p: [u8; 7] = [0x40, 0x01, 0x04, 0x64, 0x20, 0x63, 0x0A];
        assert(p@ =~= rezero_payload());
        self.send_ext(&p, 7)
    }

    /// Takes the present position as zero and stores it: the zeroing command, then
    /// `pause` (a second, for the motor to settle), then the store command. A failed
    /// send ends it.
    pub fn set_zero_position<F: FnOnce()>(&mut self, pause: F) -> (r: Result<(), MotorError>)
        requires
            pause.requires(()),
        ensures
            final(self).id() == old(self).id(),
            final(self).state_of() == old(self).state_of(),
            r is Ok ==> final(self).sent() == old(self).sent().push(
                command_frame(old(self).id(), rezero_payload(), 7),
            ).push(command_frame(old(self).id(), store_payload(), 5)),
            r is Err ==> final(self).sent() == old(self).sent() || final(self).sent()
                == old(self).sent().push(command_frame(old(self).id(), rezero_payload(), 7)),
            ({
                let z = command_frame(old(self).id(), rezero_payload(), 7);
                let s = command_frame(old(self).id(), store_payload(), 5);
                let before = old(self).the_bus().calls();
                let after = final(self).the_bus().calls();
                after[before.len() as int] matches BusCall::Send(f, first) && f == z && if first is Err {
                    r == first && after == before.push(BusCall::Send(z, first))
                } else {
                    after == before.push(BusCall::Send(z, first)).push(BusCall::Send(s, r))
                }
            }),
    {
        let first = self.send_zero_position();
        if let Err(e) = first {
            return Err(e);
        }
        pause();
        self.store_parameters()
    }

    /// Accepts control modes 1 (MIT), 2 (POS_VEL), 3 (VEL) and 4 (FORCE_POS); sends nothing.
    pub fn ensure_control_mode(&self, mode: u32) -> (r: Result<(), MotorError>)
        ensures
            1 <= mode <= 4 ==> r is Ok,
            !(1 <= mode <= 4) ==> (r matches Err(MotorError::InvalidArgument(m)) && m@
                == mode_range_text()),
    {
        if 1 <= mode && mode <= 4 {
            Ok(())
        } else {
            Err(
                MotorError::InvalidArgument(
                    String::from_str("HighTorque mode must be 1(MIT)/2(POS_VEL)/3(VEL)/4(FORCE_POS)"),
                ),
            )
        }
    }

    /// Position, velocity and torque command in raw units.
    pub fn send_cmd_pos_vel_tqe(&mut self, pos_raw: i16, vel_raw: i16, tqe_raw: i16) -> (r: Result<
        (),
        MotorError,
    >)
        ensures
            final(self).id() == old(self).id(),
            final(self).state_of() == old(self).state_of(),
            r is Ok ==> final(self).sent() == old(self).sent().push(
                command_frame(old(self).id(), pos_vel_tqe_payload(pos_raw, vel_raw, tqe_raw), 8),
            ),
            r is Err ==> final(self).sent() == old(self).sent(),
            final(self).the_bus().calls() == old(self).the_bus().calls().push(
                BusCall::Send(command_frame(old(self).id(), pos_vel_tqe_payload(pos_raw, vel_raw, tqe_raw), 8), r),
            ),
    {
        let data = pos_vel_tqe_bytes(pos_raw, vel_raw, tqe_raw);
        self.send_ext(&data, 8)
    }

    /// MIT command, as HighTorque motors take it: position, velocity and feed-forward
    /// torque in raw units (the motor has no stiffness or damping gains).
    pub fn send_cmd_mit(&mut self, pos_raw: i16, vel_raw: i16, tqe_raw: i16) -> (r: Result<
        (),
        MotorError,
    >)
        ensures
            final(self).id() == old(self).id(),
            final(self).state_of() == old(self).state_of(),
            r is Ok ==> final(self).sent() == old(self).sent().push(
                command_frame(old(self).id(), pos_vel_tqe_payload(pos_raw, vel_raw, tqe_raw), 8),
            ),
            r is Err ==> final(self).sent() == old(self).sent(),
            final(self).the_bus().calls() == old(self).the_bus().calls().push(
                BusCall::Send(command_frame(old(self).id(), pos_vel_tqe_payload(pos_raw, vel_raw, tqe_raw), 8), r),
            ),
    {
        self.send_cmd_pos_vel_tqe(pos_raw, vel_raw, tqe_raw)
    }

    /// Position command with a velocity limit and no torque limit (`i16::MIN`), in raw units.
    pub fn send_cmd_pos_vel(&mut self, pos_raw: i16, vel_raw: i16) -> (r: Result<(), MotorError>)
        ensures
            final(self).id() == old(self).id(),
            final(self).state_of() == old(self).state_of(),
            r is Ok ==> final(self).sent() == old(self).sent().push(
                command_frame(old(self).id(), pos_vel_tqe_payload(pos_raw, vel_raw, i16::MIN), 8),
            ),
            r is Err ==> final(self).sent() == old(self).sent(),
            final(self).the_bus().calls() == old(self).the_bus().calls().push(
                BusCall::Send(command_frame(old(self).id(), pos_vel_tqe_payload(pos_raw, vel_raw, i16::MIN), 8), r),
            ),
    {
        self.send_cmd_pos_vel_tqe(pos_raw, vel_raw, i16::MIN)
    }

    /// Velocity command in raw units, with no torque limit (`i16::MIN`).
    pub fn send_cmd_vel(&mut self, vel_raw: i16) -> (r: Result<(), MotorError>)
        ensures
            final(self).id() == old(self).id(),
            final(self).state_of() == old(self).state_of(),
            r is Ok ==> final(self).sent() == old(self).sent().push(
                command_frame(old(self).id(), vel_tqe_payload(vel_raw, i16::MIN), 8),
            ),
            r is Err ==> final(self).sent() == old(self).sent(),
            final(self).the_bus().calls() == old(self).the_bus().calls().push(
                BusCall::Send(command_frame(old(self).id(), vel_tqe_payload(vel_raw, i16::MIN), 8), r),
            ),
    {
        let data = vel_tqe_bytes(vel_raw, i16::MIN);
        self.send_ext(&data, 8)
    }

    /// Force-position control is not offered for HighTorque motors: always refused.
    pub fn send_cmd_force_pos(&self) -> (r: Result<(), MotorError>)
        ensures
            r matches Err(MotorError::InvalidArgument(m)) && m@
                == "send_force_pos is not supported for HighTorque ABI; use send_mit/send_pos_vel"@,
    {
        Err(
            MotorError::InvalidArgument(
                String::from_str(
                    "send_force_pos is not supported for HighTorque ABI; use send_mit/send_pos_vel",
                ),
            ),
        )
    }

    /// Stores the parameters in the motor's flash.
    pub fn store_parameters(&mut self) -> (r: Result<(), MotorError>)
        ensures
            final(self).id() == old(self).id(),
            final(self).state_of() == old(self).state_of(),
            r is Ok ==> final(self).sent() == old(self).sent().push(
                command_frame(old(self).id(), store_payload(), 5),
            ),
            r is Err ==> final(self).sent() == old(self).sent(),
            final(self).the_bus().calls() == old(self).the_bus().calls().push(
                BusCall::Send(command_frame(old(self).id(), store_payload(), 5), r),
            ),
    {
        let p: [u8; 5] = [0x05, 0xB3, 0x02, 0x00, 0x00];
        assert(p@ =~= store_payload());
        self.send_ext(&p, 5)
    }

    /// Asks the motor for its status (the reply is awaited with `accept_status`).
    pub fn send_feedback_request(&mut self) -> (r: Result<(), MotorError>)
        ensures
            final(self).id() == old(self).id(),
            final(self).state_of() == old(self).state_of(),
            r is Ok ==> final(self).sent() == old(self).sent().push(
                command_frame(old(self).id(), read_request(), 8),
            ),
            r is Err ==> final(self).sent() == old(self).sent(),
            final(self).the_bus().calls() == old(self).the_bus().calls().push(
                BusCall::Send(command_frame(old(self).id(), read_request(), 8), r),
            ),
    {
        let p: [u8; 8] = [0x17, 0x01, 0, 0, 0, 0, 0, 0];
        assert(p@ =~= read_request());
        self.send_ext(&p, 8)
    }

    fn send_stop(&mut self) -> (r: Result<(), MotorError>)
        ensures
            final(self).id() == old(self).id(),
            final(self).state_of() == old(self).state_of(),
            r is Ok ==> final(self).sent() == old(self).sent().push(
                command_frame(old(self).id(), stop_payload(), 3),
            ),
            r is Err ==> final(self).sent() == old(self).sent(),
            final(self).the_bus().calls() == old(self).the_bus().calls().push(
                BusCall::Send(command_frame(old(self).id(), stop_payload(), 3), r),
            ),
    {
        let p: [u8; 3] = [0x01, 0x00, 0x00];
        assert(p@ =~= stop_payload());
        self.send_ext(&p, 3)
    }

    /// Takes a received frame as this motor's status if it is a read reply from it;
    /// returns whether it was.
    pub fn accept_status(&mut self, frame: CanFrame) -> (r: bool)
        ensures
            final(self).id() == old(self).id(),
            final(self).the_bus() == old(self).the_bus(),
            r == (reply_feedback(frame) matches Some(s) && s.can_id as u16 == old(self).id()),
            r ==> final(self).state_of() == reply_feedback(frame),
            !r ==> final(self).state_of() == old(self).state_of(),
    {
        match decode_read_reply(frame) {
            Some(state) => {
                if state.can_id as u16 == self.motor_id {
                    self.state = Some(state);
                    true
                } else {
                    false
                }
            },
            None => false,
        }
    }

    /// The error when no status from this motor arrived in time.
    pub fn read_timeout_error(&self) -> (e: MotorError)
        ensures
            e matches MotorError::Timeout(m) && m@ == "HighTorque read timeout on motor id "@
                + dec_text(self.id() as nat),
    {
        let mut m = String::from_str("HighTorque read timeout on motor id ");
        push_dec(&mut m, self.motor_id as u64);
        MotorError::Timeout(m)
    }

    /// What `recv_status` returns for what the bus's receive gave.
    pub open spec fn status_outcome(got: Result<Option<CanFrame>, MotorError>, id: u16) -> Result<
        bool,
        MotorError,
    > {
        match got {
            Err(e) => Err(e),
            Ok(None) => Ok(false),
            Ok(Some(f)) => Ok(reply_feedback(f) matches Some(s) && s.can_id as u16 == id),
        }
    }

    /// Receives one frame, waiting up to `timeout_ms`, and takes it as this motor's
    /// status if it is one. Returns whether a status for this motor arrived.
    pub fn recv_status(&mut self, timeout_ms: u64) -> (r: Result<bool, MotorError>)
        ensures
            final(self).id() == old(self).id(),
            final(self).sent() == old(self).sent(),
            r matches Ok(false) ==> final(self).state_of() == old(self).state_of(),
            r matches Err(_) ==> final(self).state_of() == old(self).state_of(),
            final(self).the_bus().received() == old(self).the_bus().received() || (exists|
                f: CanFrame,
            | final(self).the_bus().received() == old(self).the_bus().received().push(f)),
            r matches Ok(true) ==> {
                let f = final(self).the_bus().received().last();
                &&& final(self).the_bus().received() == old(self).the_bus().received().push(f)
                &&& reply_feedback(f) matches Some(s) && s.can_id as u16 == old(self).id()
                &&& final(self).state_of() == reply_feedback(f)
            },
            final(self).the_bus().calls() == old(self).the_bus().calls().push(
                final(self).the_bus().calls().last(),
            ),
            final(self).the_bus().calls().last() matches BusCall::Recv(t, got) && t == timeout_ms
                && r == Self::status_outcome(got, old(self).id()),
    {
        match self.bus.recv(timeout_ms) {
            Err(e) => Err(e),
            Ok(None) => Ok(false),
            Ok(Some(frame)) => Ok(self.accept_status(frame)),
        }
    }
}

} // verus!
