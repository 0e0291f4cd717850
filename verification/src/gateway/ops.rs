//! The decisions behind the gateway's one-shot operations: which bus a vendor's
//! controller opens for a transport, what a `verify` or `set_id` request asks for,
//! and how a RobStride parameter value given as text becomes a typed value.
use vstd::prelude::*;
use crate::gateway::args::{hex_or_dec, invalid_integer_text, parse_u32_hex_or_dec};
use crate::gateway::message::{
    as_bool, as_u16, as_u64, field, parse_transport_in_msg, parse_vendor_in_msg, str_field,
    u16_field, MsgValue,
};
use crate::gateway::model::{
    myactuator_feedback, myactuator_feedback_default, vendor_text, Target, Transport, Vendor,
};
use crate::gateway::scan::{transport_in, u64_field, vendor_in};
use crate::text::{chars_of, hex_text, is_text, push_hex};

verus! {

/// The kind of link a vendor's controller is opened on.
#[derive(Clone, Copy, Debug, PartialEq, Eq, Structural)]
pub enum Backend {
    /// Classic CAN (SocketCAN on Linux, PCAN on Windows).
    ClassicCan,
    /// CAN FD over SocketCAN.
    CanFd,
    /// The Damiao USB-serial bridge.
    DmSerial,
}

pub open spec fn damiao_only_text() -> Seq<char> {
    "transport dm-serial is damiao-only"@
}

/// The link `vendor` uses for transport `t`, or why it cannot.
pub open spec fn backend_for(vendor: Vendor, t: Transport) -> Result<Backend, Seq<char>> {
    match (vendor, t) {
        (Vendor::Damiao, Transport::Auto) => Ok(Backend::ClassicCan),
        (Vendor::Damiao, Transport::SocketCan) => Ok(Backend::ClassicCan),
        (Vendor::Damiao, Transport::SocketCanFd) => Ok(Backend::CanFd),
        (Vendor::Damiao, Transport::DmSerial) => Ok(Backend::DmSerial),
        (Vendor::Hexfellow, Transport::Auto) => Ok(Backend::CanFd),
        (Vendor::Hexfellow, Transport::SocketCanFd) => Ok(Backend::CanFd),
        (Vendor::Hexfellow, Transport::SocketCan) => Err(
            "hexfellow requires transport socketcanfd (or auto)"@,
        ),
        (Vendor::Hightorque, Transport::SocketCanFd) => Err(
            "hightorque currently uses standard CAN transport only"@,
        ),
        (_, Transport::DmSerial) => Err(damiao_only_text()),
        (_, Transport::SocketCanFd) => Ok(Backend::CanFd),
        (_, _) => Ok(Backend::ClassicCan),
    }
}

/// How a transport picks a link: `auto` opens every vendor but HexFellow on classic
/// CAN, just as `socketcan` does; a CAN-FD link comes only from `socketcanfd`, or from
/// `auto` for HexFellow, which runs on CAN-FD alone; the serial bridge comes only
/// from `dm-serial`, and only for Damiao.
pub proof fn transport_picks_link(vendor: Vendor, t: Transport)
    ensures
        vendor != Vendor::Hexfellow ==> backend_for(vendor, Transport::Auto) == Ok::<
            Backend,
            Seq<char>,
        >(Backend::ClassicCan) && backend_for(vendor, Transport::SocketCan) == Ok::<
            Backend,
            Seq<char>,
        >(Backend::ClassicCan),
        backend_for(vendor, t) == Ok::<Backend, Seq<char>>(Backend::CanFd) ==> t
            == Transport::SocketCanFd || (vendor == Vendor::Hexfellow && t == Transport::Auto),
        (backend_for(vendor, t) == Ok::<Backend, Seq<char>>(Backend::DmSerial)) == (vendor
            == Vendor::Damiao && t == Transport::DmSerial),
        vendor == Vendor::Hexfellow && backend_for(vendor, t) is Ok ==> backend_for(vendor, t)
            == Ok::<Backend, Seq<char>>(Backend::CanFd),
        backend_for(vendor, t) == Ok::<Backend, Seq<char>>(Backend::ClassicCan) ==> t
            == Transport::Auto || t == Transport::SocketCan,
{
}

/// The link a vendor's controller is opened on for a transport.
pub fn select_backend(vendor: Vendor, t: Transport) -> (r: Result<Backend, String>)
    ensures
        match backend_for(vendor, t) {
            Ok(b) => r == Ok::<Backend, String>(b),
            Err(m) => r matches Err(e) && e@ == m,
        },
{
    match (vendor, t) {
        (Vendor::Damiao, Transport::DmSerial) => Ok(Backend::DmSerial),
        (_, Transport::DmSerial) => Err(String::from_str("transport dm-serial is damiao-only")),
        (Vendor::Hexfellow, Transport::SocketCan) => Err(
            String::from_str("hexfellow requires transport socketcanfd (or auto)"),
        ),
        (Vendor::Hexfellow, _) => Ok(Backend::CanFd),
        (Vendor::Hightorque, Transport::SocketCanFd) => Err(
            String::from_str("hightorque currently uses standard CAN transport only"),
        ),
        (_, Transport::SocketCanFd) => Ok(Backend::CanFd),
        (_, _) => Ok(Backend::ClassicCan),
    }
}

/// The feedback id a MyActuator motor is added with: the given one, or the
/// motor's default answer id when the given one is 0.
pub open spec fn effective_feedback(feedback_id: u16, motor_id: u16) -> u16 {
    if feedback_id == 0 {
        myactuator_feedback(motor_id)
    } else {
        feedback_id
    }
}

pub fn effective_feedback_id(feedback_id: u16, motor_id: u16) -> (r: u16)
    ensures
        r == effective_feedback(feedback_id, motor_id),
{
    if feedback_id == 0 {
        myactuator_feedback_default(motor_id)
    } else {
        feedback_id
    }
}

/// What a `verify` request asks to check.
#[derive(Clone, Debug)]
pub struct VerifyRequest {
    pub vendor: Vendor,
    pub transport: Transport,
    pub motor_id: u16,
    pub feedback_id: u16,
    pub timeout_ms: u64,
    /// Damiao: the model the probe starts from (the message's, else the session's).
    pub model: String,
}

pub open spec fn verify_model_text(v: MsgValue, base: Target) -> Seq<char> {
    match str_field(v, "model"@) {
        Some(s) => s,
        None => base.model@,
    }
}

/// The `verify` request a message makes against the session's target.
pub fn plan_verify(v: &MsgValue, base: &Target) -> (r: Result<VerifyRequest, String>)
    ensures
        match vendor_in(*v, base.vendor) {
            Err(m) => r matches Err(e) && e@ == m,
            Ok(x) => match transport_in(*v, base.transport) {
                Err(m) => r matches Err(e) && e@ == m,
                Ok(t) => r matches Ok(q) && q.vendor == x && q.transport == t
                    && q.motor_id == u16_field(*v, "motor_id"@, base.motor_id)
                    && q.feedback_id == u16_field(*v, "feedback_id"@, base.feedback_id)
                    && q.timeout_ms == u64_field(*v, "timeout_ms"@, 1000)
                    && q.model@ == verify_model_text(*v, *base),
            },
        },
{
    let vendor = parse_vendor_in_msg(v, base.vendor)?;
    let transport = parse_transport_in_msg(v, base.transport)?;
    let motor_id = as_u16(v, "motor_id", base.motor_id);
    let feedback_id = as_u16(v, "feedback_id", base.feedback_id);
    let timeout_ms = as_u64(v, "timeout_ms", 1000);
    let model = match v.get("model") {
        Some(MsgValue::Str(s)) => s.clone(),
        _ => base.model.clone(),
    };
    Ok(VerifyRequest { vendor, transport, motor_id, feedback_id, timeout_ms, model })
}

/// Damiao: the ids read back match the ones asked for.
pub fn damiao_ids_match(esc_id: u32, mst_id: u32, motor_id: u16, feedback_id: u16) -> (r: bool)
    ensures
        r == (esc_id == motor_id && mst_id == feedback_id),
{
    esc_id == motor_id as u32 && mst_id == feedback_id as u32
}

/// RobStride: the device id a ping answers with matches the motor id's low byte.
pub fn robstride_id_matches(device_id: u8, motor_id: u16) -> (r: bool)
    ensures
        r == (device_id == motor_id as u8),
{
    device_id == motor_id as u8
}

/// A Damiao id change: old and new ids, and whether to store and read back.
#[derive(Clone, Copy, Debug, PartialEq, Eq, Structural)]
pub struct DamiaoIdChange {
    pub old_motor_id: u16,
    pub old_feedback_id: u16,
    pub new_motor_id: u16,
    pub new_feedback_id: u16,
    pub store: bool,
    pub verify: bool,
    pub timeout_ms: u64,
}

/// A RobStride id change; the new id is one byte.
#[derive(Clone, Copy, Debug, PartialEq, Eq, Structural)]
pub struct RobstrideIdChange {
    pub old_motor_id: u16,
    pub feedback_id: u16,
    pub new_motor_id: u8,
    pub verify: bool,
    pub timeout_ms: u64,
}

#[derive(Clone, Copy, Debug, PartialEq, Eq, Structural)]
pub enum SetIdPlan {
    Damiao(DamiaoIdChange),
    Robstride(RobstrideIdChange),
}

pub open spec fn bool_field(v: MsgValue, key: Seq<char>, default: bool) -> bool {
    match field(v, key) {
        Some(MsgValue::Bool(b)) => b,
        _ => default,
    }
}

/// The id change a `set_id` message asks for, or why it cannot be made.
pub open spec fn set_id_plan_of(v: MsgValue, base: Target) -> Result<SetIdPlan, Seq<char>> {
    match vendor_in(v, base.vendor) {
        Err(m) => Err(m),
        Ok(Vendor::Damiao) => {
            let old_mid = u16_field(v, "old_motor_id"@, base.motor_id);
            let old_fid = u16_field(v, "old_feedback_id"@, base.feedback_id);
            Ok(
                SetIdPlan::Damiao(
                    DamiaoIdChange {
                        old_motor_id: old_mid,
                        old_feedback_id: old_fid,
                        new_motor_id: u16_field(v, "new_motor_id"@, old_mid),
                        new_feedback_id: u16_field(v, "new_feedback_id"@, old_fid),
                        store: bool_field(v, "store"@, true),
                        verify: bool_field(v, "verify"@, true),
                        timeout_ms: u64_field(v, "timeout_ms"@, 1000),
                    },
                ),
            )
        },
        Ok(Vendor::Robstride) => {
            let old_mid = u16_field(v, "old_motor_id"@, base.motor_id);
            let new_mid = u16_field(v, "new_motor_id"@, old_mid);
            if new_mid == 0 || new_mid > 0xFF {
                Err("robstride new_motor_id must be 1..255"@)
            } else {
                Ok(
                    SetIdPlan::Robstride(
                        RobstrideIdChange {
                            old_motor_id: old_mid,
                            feedback_id: u16_field(v, "feedback_id"@, base.feedback_id),
                            new_motor_id: new_mid as u8,
                            verify: bool_field(v, "verify"@, true),
                            timeout_ms: u64_field(v, "timeout_ms"@, 1000),
                        },
                    ),
                )
            }
        },
        Ok(x) => Err("set_id is not supported for "@ + vendor_text(x)),
    }
}

pub fn plan_set_id(v: &MsgValue, base: &Target) -> (r: Result<SetIdPlan, String>)
    ensures
        match set_id_plan_of(*v, *base) {
            Ok(p) => r == Ok::<SetIdPlan, String>(p),
            Err(m) => r matches Err(e) && e@ == m,
        },
{
    let vendor = parse_vendor_in_msg(v, base.vendor)?;
    match vendor {
        Vendor::Damiao => {
            let old_mid = as_u16(v, "old_motor_id", base.motor_id);
            let old_fid = as_u16(v, "old_feedback_id", base.feedback_id);
            let new_mid = as_u16(v, "new_motor_id", old_mid);
            let new_fid = as_u16(v, "new_feedback_id", old_fid);
            let store = as_bool(v, "store", true);
            let verify = as_bool(v, "verify", true);
            let timeout_ms = as_u64(v, "timeout_ms", 1000);
            Ok(
                SetIdPlan::Damiao(
                    DamiaoIdChange {
                        old_motor_id: old_mid,
                        old_feedback_id: old_fid,
                        new_motor_id: new_mid,
                        new_feedback_id: new_fid,
                        store,
                        verify,
                        timeout_ms,
                    },
                ),
            )
        },
        Vendor::Robstride => {
            let old_mid = as_u16(v, "old_motor_id", base.motor_id);
            let fid = as_u16(v, "feedback_id", base.feedback_id);
            let new_mid = as_u16(v, "new_motor_id", old_mid);
            if new_mid == 0 || new_mid > 0xFF {
                return Err(String::from_str("robstride new_motor_id must be 1..255"));
            }
            let verify = as_bool(v, "verify", true);
            let timeout_ms = as_u64(v, "timeout_ms", 1000);
            Ok(
                SetIdPlan::Robstride(
                    RobstrideIdChange {
                        old_motor_id: old_mid,
                        feedback_id: fid,
                        new_motor_id: new_mid as u8,
                        verify,
                        timeout_ms,
                    },
                ),
            )
        },
        _ => {
            let mut m = String::from_str("set_id is not supported for ");
            m.append(vendor.as_str());
            Err(m)
        },
    }
}

/// The Damiao register writes an id change makes, in order: the feedback id
/// (register 7) when it changes, then the motor id (register 8) when it changes.
pub open spec fn id_register_writes(c: DamiaoIdChange) -> Seq<(u8, u32)> {
    let a: Seq<(u8, u32)> = if c.new_feedback_id != c.old_feedback_id {
        seq![(7u8, c.new_feedback_id as u32)]
    } else {
        Seq::empty()
    };
    let b: Seq<(u8, u32)> = if c.new_motor_id != c.old_motor_id {
        seq![(8u8, c.new_motor_id as u32)]
    } else {
        Seq::empty()
    };
    a + b
}

pub fn damiao_id_register_writes(c: &DamiaoIdChange) -> (r: Vec<(u8, u32)>)
    ensures
        r@ == id_register_writes(*c),
{
    let mut r: Vec<(u8, u32)> = Vec::new();
    if c.new_feedback_id != c.old_feedback_id {
        r.push((7u8, c.new_feedback_id as u32));
    }
    if c.new_motor_id != c.old_motor_id {
        r.push((8u8, c.new_motor_id as u32));
    }
    assert(r@ =~= id_register_writes(*c));
    r
}

/// The type of a RobStride parameter as a request names it.
#[derive(Clone, Copy, Debug, PartialEq, Eq, Structural)]
pub enum ParamKind {
    I8,
    U8,
    U16,
    U32,
    F32,
}

/// `i8`, `u8`, `u16` and `u32` name themselves; any other name means `f32`.
pub open spec fn param_kind_named(ty: Seq<char>) -> ParamKind {
    if ty == "i8"@ {
        ParamKind::I8
    } else if ty == "u8"@ {
        ParamKind::U8
    } else if ty == "u16"@ {
        ParamKind::U16
    } else if ty == "u32"@ {
        ParamKind::U32
    } else {
        ParamKind::F32
    }
}

pub open spec fn param_kind_text(k: ParamKind) -> Seq<char> {
    match k {
        ParamKind::I8 => "i8"@,
        ParamKind::U8 => "u8"@,
        ParamKind::U16 => "u16"@,
        ParamKind::U32 => "u32"@,
        ParamKind::F32 => "f32"@,
    }
}

pub fn param_kind(ty: &str) -> (r: ParamKind)
    ensures
        r == param_kind_named(ty@),
{
    let v = chars_of(ty);
    if is_text(v.as_slice(), "i8") {
        ParamKind::I8
    } else if is_text(v.as_slice(), "u8") {
        ParamKind::U8
    } else if is_text(v.as_slice(), "u16") {
        ParamKind::U16
    } else if is_text(v.as_slice(), "u32") {
        ParamKind::U32
    } else {
        ParamKind::F32
    }
}

/// A parameter value to write. `F32` carries no number: the text is read as a
/// float by the caller.
#[derive(Clone, Copy, Debug, PartialEq, Eq, Structural)]
pub enum ParamWrite {
    I8(i8),
    U8(u8),
    U16(u16),
    U32(u32),
    F32,
}

/// The value text `raw` gives for an integer kind: a `u32` in decimal or `0x` hex,
/// truncated to the kind's width; the error names the kind.
pub open spec fn param_write_of(k: ParamKind, raw: Seq<char>) -> Result<ParamWrite, Seq<char>> {
    if k == ParamKind::F32 {
        Ok(ParamWrite::F32)
    } else {
        match hex_or_dec(raw, u32::MAX as int) {
            Err(e) => Err(
                "invalid "@ + param_kind_text(k) + " value: "@ + invalid_integer_text(raw, e),
            ),
            Ok(n) => Ok(
                match k {
                    ParamKind::I8 => ParamWrite::I8(n as i8),
                    ParamKind::U8 => ParamWrite::U8(n as u8),
                    ParamKind::U16 => ParamWrite::U16(n as u16),
                    _ => ParamWrite::U32(n as u32),
                },
            ),
        }
    }
}

fn kind_str(k: ParamKind) -> (r: &'static str)
    ensures
        r@ == param_kind_text(k),
{
    match k {
        ParamKind::I8 => "i8",
        ParamKind::U8 => "u8",
        ParamKind::U16 => "u16",
        ParamKind::U32 => "u32",
        ParamKind::F32 => "f32",
    }
}

pub fn param_write_value(k: ParamKind, raw: &str) -> (r: Result<ParamWrite, String>)
    ensures
        match param_write_of(k, raw@) {
            Ok(w) => r == Ok::<ParamWrite, String>(w),
            Err(m) => r matches Err(e) && e@ == m,
        },
{
    if k == ParamKind::F32 {
        return Ok(ParamWrite::F32);
    }
    match parse_u32_hex_or_dec(raw) {
        Err(e) => {
            let mut m = String::from_str("invalid ");
            m.append(kind_str(k));
            m.append(" value: ");
            m.append(e.as_str());
            Err(m)
        },
        Ok(n) => Ok(
            match k {
                ParamKind::I8 => ParamWrite::I8(n as i8),
                ParamKind::U8 => ParamWrite::U8(n as u8),
                ParamKind::U16 => ParamWrite::U16(n as u16),
                _ => ParamWrite::U32(n),
            },
        ),
    }
}

/// The refusal when a parameter read back is not of the kind asked for.
pub open spec fn wrong_kind_text(param_id: u16, k: ParamKind) -> Seq<char> {
    "parameter 0x"@ + hex_text(param_id as nat, 4) + " is not "@ + param_kind_text(k)
}

pub fn wrong_kind_message(param_id: u16, k: ParamKind) -> (r: String)
    ensures
        r@ == wrong_kind_text(param_id, k),
{
    let mut m = String::from_str("parameter 0x");
    push_hex(&mut m, param_id as u64, 4);
    m.append(" is not ");
    m.append(kind_str(k));
    m
}

} // verus!
