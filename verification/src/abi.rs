//! The decisions behind the C interface: which vendor a controller is bound to,
//! register and parameter ids, status flags, and the text of the last error.
use vstd::prelude::*;
use crate::text::{chars_of, push_char};

verus! {

/// The vendors a C-interface controller can drive.
#[derive(Clone, Copy, Debug, PartialEq, Eq, Structural)]
pub enum MotorKind {
    Damiao,
    Hexfellow,
    MyActuator,
    Robstride,
    Hightorque,
}

/// How each vendor is named in messages.
pub open spec fn kind_text(k: MotorKind) -> Seq<char> {
    match k {
        MotorKind::Damiao => "Damiao"@,
        MotorKind::Hexfellow => "Hexfellow"@,
        MotorKind::MyActuator => "MyActuator"@,
        MotorKind::Robstride => "RobStride"@,
        MotorKind::Hightorque => "HighTorque"@,
    }
}

pub fn kind_name(k: MotorKind) -> (r: &'static str)
    ensures
        r@ == kind_text(k),
{
    match k {
        MotorKind::Damiao => "Damiao",
        MotorKind::Hexfellow => "Hexfellow",
        MotorKind::MyActuator => "MyActuator",
        MotorKind::Robstride => "RobStride",
        MotorKind::Hightorque => "HighTorque",
    }
}

/// A C-interface controller: created on a channel, bound to a vendor by the first
/// motor added to it, and bound for good.
#[derive(Clone, Debug)]
pub enum ControllerBinding {
    Unbound(String),
    Bound(MotorKind),
}

pub open spec fn already_bound_text(k: MotorKind) -> Seq<char> {
    "controller already bound to "@ + kind_text(k) + "; use a separate controller"@
}

/// What adding a motor of vendor `wanted` asks of a controller: the channel to open
/// the vendor's controller on, nothing when it is bound to `wanted` already, or the
/// refusal when it is bound to another vendor.
pub enum BindStep<'a> {
    Open(&'a String),
    Ready,
}

impl ControllerBinding {
    pub fn plan_bind(&self, wanted: MotorKind) -> (r: Result<BindStep<'_>, String>)
        ensures
            match *self {
                ControllerBinding::Unbound(ch) => r matches Ok(BindStep::Open(c)) && c@ == ch@,
                ControllerBinding::Bound(k) => if k == wanted {
                    r matches Ok(BindStep::Ready)
                } else {
                    r matches Err(m) && m@ == already_bound_text(k)
                },
            },
    {
        match self {
            ControllerBinding::Unbound(ch) => Ok(BindStep::Open(ch)),
            ControllerBinding::Bound(k) => {
                if *k == wanted {
                    Ok(BindStep::Ready)
                } else {
                    let mut m = String::from_str("controller already bound to ");
                    m.append(kind_name(*k));
                    m.append("; use a separate controller");
                    Err(m)
                }
            },
        }
    }

    /// Binds an unbound controller to `kind` once its vendor controller is open.
    pub fn bind(&mut self, kind: MotorKind)
        ensures
            *final(self) == ControllerBinding::Bound(kind),
    {
        *self = ControllerBinding::Bound(kind);
    }
}

/// Motor operations of the C interface that not every vendor offers.
#[derive(Clone, Copy, Debug, PartialEq, Eq, Structural)]
pub enum HandleOp {
    SendMit,
    SendVel,
    SendForcePos,
    StoreParameters,
    ClearError,
    SetZeroPosition,
}

/// Why a motor of vendor `k` does not take `op` through the C interface; `None`
/// when its driver is asked (and may still refuse on its own).
pub open spec fn handle_refusal(op: HandleOp, k: MotorKind) -> Option<Seq<char>> {
    match (op, k) {
        (HandleOp::SendMit, MotorKind::MyActuator) => Some(
            "send_mit is not supported for MyActuator; use pos-vel or vel"@,
        ),
        (HandleOp::SendVel, MotorKind::Hexfellow) => Some(
            "send_vel is not supported for Hexfellow; use MIT or POS_VEL"@,
        ),
        (HandleOp::SendForcePos, MotorKind::Hexfellow) => Some(
            "send_force_pos is not supported for Hexfellow"@,
        ),
        (HandleOp::SendForcePos, MotorKind::MyActuator) => Some(
            "send_force_pos is not supported for MyActuator"@,
        ),
        (HandleOp::SendForcePos, MotorKind::Robstride) => Some(
            "send_force_pos is not supported for RobStride"@,
        ),
        (HandleOp::StoreParameters, MotorKind::Hexfellow) => Some(
            "store_parameters is not supported for Hexfellow"@,
        ),
        (HandleOp::StoreParameters, MotorKind::MyActuator) => Some(
            "store_parameters is not supported for MyActuator"@,
        ),
        (HandleOp::ClearError, MotorKind::Hexfellow) => Some(
            "clear_error is not supported for Hexfellow"@,
        ),
        (HandleOp::ClearError, MotorKind::Robstride) => Some(
            "clear_error is not supported for RobStride ABI yet"@,
        ),
        (HandleOp::SetZeroPosition, MotorKind::Hexfellow) => Some(
            "set_zero_position is not supported for Hexfellow"@,
        ),
        (HandleOp::SetZeroPosition, MotorKind::MyActuator) => Some(
            "set_zero_position is not supported for MyActuator"@,
        ),
        _ => None,
    }
}

pub fn handle_op_refusal(op: HandleOp, k: MotorKind) -> (r: Option<&'static str>)
    ensures
        match handle_refusal(op, k) {
            Some(m) => r matches Some(s) && s@ == m,
            None => r is None,
        },
{
    match (op, k) {
        (HandleOp::SendMit, MotorKind::MyActuator) => Some(
            "send_mit is not supported for MyActuator; use pos-vel or vel",
        ),
        (HandleOp::SendVel, MotorKind::Hexfellow) => Some(
            "send_vel is not supported for Hexfellow; use MIT or POS_VEL",
        ),
        (HandleOp::SendForcePos, MotorKind::Hexfellow) => Some(
            "send_force_pos is not supported for Hexfellow",
        ),
        (HandleOp::SendForcePos, MotorKind::MyActuator) => Some(
            "send_force_pos is not supported for MyActuator",
        ),
        (HandleOp::SendForcePos, MotorKind::Robstride) => Some(
            "send_force_pos is not supported for RobStride",
        ),
        (HandleOp::StoreParameters, MotorKind::Hexfellow) => Some(
            "store_parameters is not supported for Hexfellow",
        ),
        (HandleOp::StoreParameters, MotorKind::MyActuator) => Some(
            "store_parameters is not supported for MyActuator",
        ),
        (HandleOp::ClearError, MotorKind::Hexfellow) => Some(
            "clear_error is not supported for Hexfellow",
        ),
        (HandleOp::ClearError, MotorKind::Robstride) => Some(
            "clear_error is not supported for RobStride ABI yet",
        ),
        (HandleOp::SetZeroPosition, MotorKind::Hexfellow) => Some(
            "set_zero_position is not supported for Hexfellow",
        ),
        (HandleOp::SetZeroPosition, MotorKind::MyActuator) => Some(
            "set_zero_position is not supported for MyActuator",
        ),
        _ => None,
    }
}

/// The C return code of an outcome: 0 on success, -1 on failure (whose text becomes
/// the last error).
pub fn status_code<T>(r: &Result<T, String>) -> (c: i32)
    ensures
        r is Ok ==> c == 0,
        r is Err ==> c == -1,
{
    match r {
        Ok(_) => 0,
        Err(_) => -1,
    }
}

/// The Damiao register id for a parameter id: ids above 255 are refused.
pub fn damiao_param_rid(param_id: u16) -> (r: Result<u8, String>)
    ensures
        param_id <= 255 ==> r == Ok::<u8, String>(param_id as u8),
        param_id > 255 ==> (r matches Err(m) && m@
            == "Damiao parameter/register id must be in 0..=255"@),
{
    if param_id <= u8::MAX as u16 {
        Ok(param_id as u8)
    } else {
        Err(String::from_str("Damiao parameter/register id must be in 0..=255"))
    }
}

/// The Damiao CAN-timeout register value for a timeout in milliseconds (20 per ms,
/// saturating).
pub fn damiao_can_timeout_register(timeout_ms: u32) -> (r: u32)
    ensures
        r == (if timeout_ms * 20 > u32::MAX {
            u32::MAX as int
        } else {
            timeout_ms * 20
        }),
{
    if timeout_ms > u32::MAX / 20 {
        u32::MAX
    } else {
        timeout_ms * 20
    }
}

/// The Hexfellow drive mode for a C-interface mode: 1 (MIT) is mode 5, 2 (POS_VEL) mode 1.
pub fn hexfellow_mode_code(mode: u32) -> (r: Result<u8, &'static str>)
    ensures
        mode == 1 ==> r == Ok::<u8, &'static str>(5),
        mode == 2 ==> r == Ok::<u8, &'static str>(1),
        mode != 1 && mode != 2 ==> (r matches Err(m) && m@
            == "Hexfellow mode must be 1(MIT) / 2(POS_VEL)"@),
{
    match mode {
        1 => Ok(5),
        2 => Ok(1),
        _ => Err("Hexfellow mode must be 1(MIT) / 2(POS_VEL)"),
    }
}

/// The fault flags a RobStride status frame reports.
#[derive(Clone, Copy, Debug)]
pub struct RobstrideFaults {
    pub uncalibrated: bool,
    pub stall: bool,
    pub magnetic_encoder_fault: bool,
    pub overtemperature: bool,
    pub overcurrent: bool,
    pub undervoltage: bool,
}

pub open spec fn bit(b: bool, weight: int) -> int {
    if b {
        weight
    } else {
        0
    }
}

/// The status byte the C interface reports for RobStride faults: bit 5 uncalibrated,
/// 4 stall, 3 encoder fault, 2 overtemperature, 1 overcurrent, 0 undervoltage.
pub open spec fn robstride_status(f: RobstrideFaults) -> int {
    bit(f.uncalibrated, 32) + bit(f.stall, 16) + bit(f.magnetic_encoder_fault, 8) + bit(
        f.overtemperature,
        4,
    ) + bit(f.overcurrent, 2) + bit(f.undervoltage, 1)
}

pub fn robstride_status_code(f: &RobstrideFaults) -> (r: u8)
    ensures
        r == robstride_status(*f),
{
    let mut status: u8 = 0;
    if f.uncalibrated {
        status = status + 32;
    }
    if f.stall {
        status = status + 16;
    }
    if f.magnetic_encoder_fault {
        status = status + 8;
    }
    if f.overtemperature {
        status = status + 4;
    }
    if f.overcurrent {
        status = status + 2;
    }
    if f.undervoltage {
        status = status + 1;
    }
    status
}

/// An error message as the C interface keeps it: NUL characters become spaces.
pub open spec fn c_safe_text(s: Seq<char>) -> Seq<char> {
    Seq::new(s.len(), |i: int| if s[i] == '\0' { ' ' } else { s[i] })
}

pub fn clean_error_text(msg: &str) -> (r: String)
    ensures
        r@ == c_safe_text(msg@),
{
    let v = chars_of(msg);
    let mut r = String::new();
    let mut i: usize = 0;
    while i < v.len()
        invariant
            i <= v@.len(),
            v@ == msg@,
            r@ == c_safe_text(msg@).subrange(0, i as int),
        decreases v@.len() - i,
    {
        let c = if v[i] == '\0' {
            ' '
        } else {
            v[i]
        };
        push_char(&mut r, c);
        i = i + 1;
        assert(r@ =~= c_safe_text(msg@).subrange(0, i as int));
    }
    assert(r@ =~= c_safe_text(msg@));
    r
}

} // verus!
