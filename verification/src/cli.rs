//! The command-line tool's decisions: the defaults each vendor gets, which runner a
//! command goes to, the id ranges a scan accepts, and what each vendor's runner does
//! in a mode (what it sends first, what it repeats, how it ends). Talking to the
//! motors, reading floats and printing are done by the application.
use vstd::prelude::*;
use crate::gateway::args::{hex_or_dec, hex_or_dec_chars};
use crate::gateway::ops::{ParamKind, ParamWrite};
use crate::gateway::scan::myactuator_range;
use crate::modes::{DamiaoMode, RobstrideMode};
use crate::text::{
    chars_of, has_prefix, is_text, hex_text, int_error_message, int_error_text, lower_seq,
    parse_i8, parse_i8_chars, parse_uint, parse_uint_chars, push_hex, starts_with,
    to_ascii_lower, trim, trim_chars, IntErrorKind,
};

verus! {

/// The model a vendor's motors are taken to be when none is given.
pub open spec fn default_model_for(vendor: Seq<char>) -> Seq<char> {
    if vendor == "robstride"@ {
        "rs-00"@
    } else if vendor == "hightorque"@ {
        "hightorque"@
    } else if vendor == "myactuator"@ {
        "X8"@
    } else {
        "4340"@
    }
}

pub fn default_model(vendor: &str) -> (r: &'static str)
    ensures
        r@ == default_model_for(vendor@),
{
    let v = chars_of(vendor);
    if is_text(v.as_slice(), "robstride") {
        "rs-00"
    } else if is_text(v.as_slice(), "hightorque") {
        "hightorque"
    } else if is_text(v.as_slice(), "myactuator") {
        "X8"
    } else {
        "4340"
    }
}

/// The feedback id a vendor's motors answer on when none is given.
pub open spec fn default_feedback_for(vendor: Seq<char>) -> u16 {
    if vendor == "robstride"@ {
        0x00FF
    } else if vendor == "hightorque"@ {
        0x0001
    } else if vendor == "myactuator"@ {
        0x0241
    } else {
        0x0011
    }
}

pub fn default_feedback_id(vendor: &str) -> (r: u16)
    ensures
        r == default_feedback_for(vendor@),
{
    let v = chars_of(vendor);
    if is_text(v.as_slice(), "robstride") {
        0x00FF
    } else if is_text(v.as_slice(), "hightorque") {
        0x0001
    } else if is_text(v.as_slice(), "myactuator") {
        0x0241
    } else {
        0x0011
    }
}

/// The mode a vendor's runner starts in when none is given.
pub open spec fn default_mode_for(vendor: Seq<char>) -> Seq<char> {
    if vendor == "robstride"@ {
        "ping"@
    } else if vendor == "hightorque"@ {
        "read"@
    } else if vendor == "myactuator"@ {
        "status"@
    } else if vendor == "all"@ {
        "scan"@
    } else {
        "mit"@
    }
}

pub fn default_mode(vendor: &str) -> (r: &'static str)
    ensures
        r@ == default_mode_for(vendor@),
{
    let v = chars_of(vendor);
    if is_text(v.as_slice(), "robstride") {
        "ping"
    } else if is_text(v.as_slice(), "hightorque") {
        "read"
    } else if is_text(v.as_slice(), "myactuator") {
        "status"
    } else if is_text(v.as_slice(), "all") {
        "scan"
    } else {
        "mit"
    }
}

/// The runner a command goes to.
#[derive(Clone, Copy, Debug, PartialEq, Eq, Structural)]
pub enum CliRoute {
    Damiao,
    Robstride,
    Hightorque,
    Myactuator,
    /// Every vendor's scan in turn.
    ScanAll,
}

pub open spec fn route_of(vendor: Seq<char>, transport: Seq<char>, mode: Seq<char>) -> Result<
    CliRoute,
    Seq<char>,
> {
    if transport == "dm-serial"@ && vendor != "damiao"@ {
        Err("transport=dm-serial is currently supported only for --vendor damiao"@)
    } else if vendor == "all"@ {
        if mode != "scan"@ {
            Err("vendor=all currently supports --mode scan only"@)
        } else {
            Ok(CliRoute::ScanAll)
        }
    } else if vendor == "damiao"@ {
        Ok(CliRoute::Damiao)
    } else if vendor == "robstride"@ {
        Ok(CliRoute::Robstride)
    } else if vendor == "hightorque"@ {
        Ok(CliRoute::Hightorque)
    } else if vendor == "myactuator"@ {
        Ok(CliRoute::Myactuator)
    } else {
        Err("unknown vendor: "@ + vendor)
    }
}

pub fn cli_route(vendor: &str, transport: &str, mode: &str) -> (r: Result<CliRoute, String>)
    ensures
        match route_of(vendor@, transport@, mode@) {
            Ok(x) => r == Ok::<CliRoute, String>(x),
            Err(m) => r matches Err(e) && e@ == m,
        },
{
    let v = chars_of(vendor);
    let t = chars_of(transport);
    let m = chars_of(mode);
    if is_text(t.as_slice(), "dm-serial") && !is_text(v.as_slice(), "damiao") {
        Err(String::from_str("transport=dm-serial is currently supported only for --vendor damiao"))
    } else if is_text(v.as_slice(), "all") {
        if !is_text(m.as_slice(), "scan") {
            Err(String::from_str("vendor=all currently supports --mode scan only"))
        } else {
            Ok(CliRoute::ScanAll)
        }
    } else if is_text(v.as_slice(), "damiao") {
        Ok(CliRoute::Damiao)
    } else if is_text(v.as_slice(), "robstride") {
        Ok(CliRoute::Robstride)
    } else if is_text(v.as_slice(), "hightorque") {
        Ok(CliRoute::Hightorque)
    } else if is_text(v.as_slice(), "myactuator") {
        Ok(CliRoute::Myactuator)
    } else {
        let mut e = String::from_str("unknown vendor: ");
        e.append(vendor);
        Err(e)
    }
}

/// A scan range of one-byte ids: both ends in `1..=255`, the start not after the end.
pub open spec fn byte_range_ok(start: u16, end: u16) -> bool {
    start != 0 && end != 0 && start <= 255 && end <= 255 && start <= end
}

pub open spec fn byte_range_text() -> Seq<char> {
    "invalid scan range: expected 1..255 and start<=end"@
}

pub fn check_byte_scan_range(start: u16, end: u16) -> (r: Result<(), String>)
    ensures
        byte_range_ok(start, end) ==> r is Ok,
        !byte_range_ok(start, end) ==> (r matches Err(e) && e@ == byte_range_text()),
{
    if start == 0 || end == 0 || start > 255 || end > 255 || start > end {
        Err(String::from_str("invalid scan range: expected 1..255 and start<=end"))
    } else {
        Ok(())
    }
}

pub open spec fn clamp_1_32(x: u16) -> u16 {
    if x < 1 {
        1
    } else if x > 32 {
        32
    } else {
        x
    }
}

/// The ids the RobStride runner scans: a valid one-byte range, clamped to `1..=32`
/// when it runs for HighTorque motors.
pub open spec fn robstride_range_of(compat: bool, start: u16, end: u16) -> Result<
    (u16, u16),
    Seq<char>,
> {
    if !byte_range_ok(start, end) {
        Err(byte_range_text())
    } else if compat {
        if clamp_1_32(start) > clamp_1_32(end) {
            Err("invalid scan range after clamping"@)
        } else {
            Ok((clamp_1_32(start), clamp_1_32(end)))
        }
    } else {
        Ok((start, end))
    }
}

/// A RobStride scan run for HighTorque motors stays within `1..=32`, and any scan it
/// accepts starts no later than it ends.
pub proof fn robstride_range_bounds(compat: bool, start: u16, end: u16)
    ensures
        robstride_range_of(compat, start, end) matches Ok((s, e)) ==> {
            &&& 1 <= s <= e <= 255
            &&& compat ==> e <= 32
        },
{
}

fn clamp_to_32(x: u16) -> (r: u16)
    ensures
        r == clamp_1_32(x),
{
    if x < 1 {
        1
    } else if x > 32 {
        32
    } else {
        x
    }
}

pub fn robstride_scan_range(compat: bool, start: u16, end: u16) -> (r: Result<(u16, u16), String>)
    ensures
        match robstride_range_of(compat, start, end) {
            Ok(p) => r == Ok::<(u16, u16), String>(p),
            Err(m) => r matches Err(e) && e@ == m,
        },
{
    check_byte_scan_range(start, end)?;
    if compat {
        let s = clamp_to_32(start);
        let e = clamp_to_32(end);
        if s > e {
            return Err(String::from_str("invalid scan range after clamping"));
        }
        Ok((s, e))
    } else {
        Ok((start, end))
    }
}

/// How long a RobStride scan waits for each ping: shorter for HighTorque motors.
pub fn robstride_probe_timeout_ms(compat: bool) -> (r: u64)
    ensures
        r == (if compat { 40u64 } else { 80u64 }),
{
    if compat {
        40
    } else {
        80
    }
}

/// The MyActuator scan range; the refusal when it is not valid.
pub fn myactuator_scan_range(start: u16, end: u16) -> (r: Result<(u16, u16), String>)
    ensures
        match myactuator_range(start, end) {
            Some(p) => r == Ok::<(u16, u16), String>(p),
            None => r matches Err(e) && e@ == "invalid scan range: expected start in 1..32 and start<=end"@,
        },
{
    if start == 0 || end == 0 || start > 32 || start > end {
        return Err(String::from_str("invalid scan range: expected start in 1..32 and start<=end"));
    }
    Ok((start, if end > 32 { 32 } else { end }))
}

/// What became of the model the RobStride runner was given.
#[derive(Clone, Copy, Debug, PartialEq, Eq, Structural)]
pub enum CompatNote {
    /// Used as given.
    Kept,
    /// A placeholder name, replaced by `rs-00`.
    Defaulted,
    /// Not a RobStride model, replaced by `rs-00`.
    Fallback,
}

/// The model the RobStride runner uses: as given for RobStride motors; for HighTorque
/// motors a placeholder (empty, `hightorque`, `ht`, `auto`, `default`, in any ASCII
/// case, spaces around ignored) becomes `rs-00`, an `rs-` name is kept, anything
/// else falls back to `rs-00`.
pub open spec fn compat_model_of(compat: bool, model: Seq<char>) -> (Seq<char>, CompatNote) {
    let m = lower_seq(trim(model));
    if !compat {
        (model, CompatNote::Kept)
    } else if m.len() == 0 || m == "hightorque"@ || m == "ht"@ || m == "auto"@ || m
        == "default"@ {
        ("rs-00"@, CompatNote::Defaulted)
    } else if has_prefix(m, "rs-"@) {
        (model, CompatNote::Kept)
    } else {
        ("rs-00"@, CompatNote::Fallback)
    }
}

pub fn robstride_compat_model(compat: bool, model: &str) -> (r: (String, CompatNote))
    ensures
        r.0@ == compat_model_of(compat, model@).0,
        r.1 == compat_model_of(compat, model@).1,
{
    if !compat {
        return (String::from_str(model), CompatNote::Kept);
    }
    let raw = chars_of(model);
    let t = trim_chars(raw.as_slice());
    let m = to_ascii_lower(t.as_slice());
    let ms = m.as_slice();
    if m.len() == 0 || is_text(ms, "hightorque") || is_text(ms, "ht") || is_text(ms, "auto")
        || is_text(ms, "default") {
        (String::from_str("rs-00"), CompatNote::Defaulted)
    } else {
        let p = chars_of("rs-");
        if starts_with(ms, p.as_slice()) {
            (String::from_str(model), CompatNote::Kept)
        } else {
            (String::from_str("rs-00"), CompatNote::Fallback)
        }
    }
}

/// How a runner ends: closing the bus only, or disabling the motors first.
#[derive(Clone, Copy, Debug, PartialEq, Eq, Structural)]
pub enum Finish {
    CloseBus,
    Shutdown,
}

/// The command the Damiao runner repeats.
#[derive(Clone, Copy, Debug, PartialEq, Eq, Structural)]
pub enum DamiaoCliCommand {
    Enable,
    Disable,
    Mit,
    PosVel,
    Vel,
    ForcePos,
}

pub open spec fn damiao_command_named(mode: Seq<char>) -> Option<DamiaoCliCommand> {
    if mode == "enable"@ {
        Some(DamiaoCliCommand::Enable)
    } else if mode == "disable"@ {
        Some(DamiaoCliCommand::Disable)
    } else if mode == "mit"@ {
        Some(DamiaoCliCommand::Mit)
    } else if mode == "pos-vel"@ {
        Some(DamiaoCliCommand::PosVel)
    } else if mode == "vel"@ {
        Some(DamiaoCliCommand::Vel)
    } else if mode == "force-pos"@ {
        Some(DamiaoCliCommand::ForcePos)
    } else {
        None
    }
}

/// What the Damiao runner does in a control mode.
#[derive(Clone, Copy, Debug, PartialEq, Eq, Structural)]
pub struct DamiaoRunPlan {
    /// Enable every motor before the rounds.
    pub enable_first: bool,
    /// The control mode to switch to before the rounds.
    pub ensure_mode: Option<DamiaoMode>,
    /// The command each round sends; `None`: the first round fails on the mode.
    pub command: Option<DamiaoCliCommand>,
    pub finish: Finish,
}

pub open spec fn on_off(mode: Seq<char>) -> bool {
    mode == "enable"@ || mode == "disable"@
}

pub open spec fn damiao_mode_for(c: DamiaoCliCommand) -> DamiaoMode {
    match c {
        DamiaoCliCommand::PosVel => DamiaoMode::PosVel,
        DamiaoCliCommand::Vel => DamiaoMode::Vel,
        DamiaoCliCommand::ForcePos => DamiaoMode::ForcePos,
        _ => DamiaoMode::Mit,
    }
}

pub open spec fn unknown_damiao_mode_text(mode: Seq<char>) -> Seq<char> {
    "unknown Damiao mode: "@ + mode
}

/// The Damiao runner's plan for `mode`; switching modes first (`ensure`) refuses a
/// mode it does not know before anything is sent.
pub open spec fn damiao_run_plan_of(mode: Seq<char>, ensure: bool) -> Result<
    DamiaoRunPlan,
    Seq<char>,
> {
    let cmd = damiao_command_named(mode);
    if ensure && !on_off(mode) && cmd is None {
        Err(unknown_damiao_mode_text(mode))
    } else {
        Ok(
            DamiaoRunPlan {
                enable_first: !on_off(mode),
                ensure_mode: if ensure && !on_off(mode) {
                    Some(damiao_mode_for(cmd.unwrap()))
                } else {
                    None
                },
                command: cmd,
                finish: if on_off(mode) {
                    Finish::CloseBus
                } else {
                    Finish::Shutdown
                },
            },
        )
    }
}

fn damiao_command(m: &[char]) -> (r: Option<DamiaoCliCommand>)
    ensures
        r == damiao_command_named(m@),
{
    if is_text(m, "enable") {
        Some(DamiaoCliCommand::Enable)
    } else if is_text(m, "disable") {
        Some(DamiaoCliCommand::Disable)
    } else if is_text(m, "mit") {
        Some(DamiaoCliCommand::Mit)
    } else if is_text(m, "pos-vel") {
        Some(DamiaoCliCommand::PosVel)
    } else if is_text(m, "vel") {
        Some(DamiaoCliCommand::Vel)
    } else if is_text(m, "force-pos") {
        Some(DamiaoCliCommand::ForcePos)
    } else {
        None
    }
}

pub fn unknown_damiao_mode(mode: &str) -> (r: String)
    ensures
        r@ == unknown_damiao_mode_text(mode@),
{
    let mut e = String::from_str("unknown Damiao mode: ");
    e.append(mode);
    e
}

pub fn damiao_run_plan(mode: &str, ensure: bool) -> (r: Result<DamiaoRunPlan, String>)
    ensures
        match damiao_run_plan_of(mode@, ensure) {
            Ok(p) => r == Ok::<DamiaoRunPlan, String>(p),
            Err(m) => r matches Err(e) && e@ == m,
        },
{
    let m = chars_of(mode);
    let cmd = damiao_command(m.as_slice());
    let toggles = is_text(m.as_slice(), "enable") || is_text(m.as_slice(), "disable");
    let ensure_mode = if ensure && !toggles {
        match cmd {
            None => {
                return Err(unknown_damiao_mode(mode));
            },
            Some(DamiaoCliCommand::PosVel) => Some(DamiaoMode::PosVel),
            Some(DamiaoCliCommand::Vel) => Some(DamiaoMode::Vel),
            Some(DamiaoCliCommand::ForcePos) => Some(DamiaoMode::ForcePos),
            Some(_) => Some(DamiaoMode::Mit),
        }
    } else {
        None
    };
    Ok(
        DamiaoRunPlan {
            enable_first: !toggles,
            ensure_mode,
            command: cmd,
            finish: if toggles {
                Finish::CloseBus
            } else {
                Finish::Shutdown
            },
        },
    )
}

/// The registers a Damiao id change writes, in order: the feedback id (7) when one
/// is given, then the motor id (8) when one is given.
pub open spec fn cli_id_writes(set_motor: Option<u16>, set_feedback: Option<u16>) -> Seq<
    (u8, u32),
> {
    let a: Seq<(u8, u32)> = match set_feedback {
        Some(v) => seq![(7u8, v as u32)],
        None => Seq::empty(),
    };
    let b: Seq<(u8, u32)> = match set_motor {
        Some(v) => seq![(8u8, v as u32)],
        None => Seq::empty(),
    };
    a + b
}

pub fn damiao_cli_id_writes(set_motor: Option<u16>, set_feedback: Option<u16>) -> (r: Vec<
    (u8, u32),
>)
    ensures
        r@ == cli_id_writes(set_motor, set_feedback),
{
    let mut r: Vec<(u8, u32)> = Vec::new();
    if let Some(v) = set_feedback {
        r.push((7u8, v as u32));
    }
    if let Some(v) = set_motor {
        r.push((8u8, v as u32));
    }
    assert(r@ =~= cli_id_writes(set_motor, set_feedback));
    r
}

pub open spec fn id_readback_text(new_motor: u16, new_feedback: u16, esc: u32, mst: u32) -> Seq<
    char,
> {
    "id verify failed: expected ESC_ID=0x"@ + hex_text(new_motor as nat, 0) + ", MST_ID=0x"@
        + hex_text(new_feedback as nat, 0) + ", got ESC_ID=0x"@ + hex_text(esc as nat, 0)
        + ", MST_ID=0x"@ + hex_text(mst as nat, 0)
}

/// Checks the ids read back after a Damiao id change.
pub fn check_id_readback(esc: u32, mst: u32, new_motor: u16, new_feedback: u16) -> (r: Result<
    (),
    String,
>)
    ensures
        (esc == new_motor && mst == new_feedback) ==> r is Ok,
        !(esc == new_motor && mst == new_feedback) ==> (r matches Err(e) && e@
            == id_readback_text(new_motor, new_feedback, esc, mst)),
{
    if esc == new_motor as u32 && mst == new_feedback as u32 {
        return Ok(());
    }
    let mut e = String::from_str("id verify failed: expected ESC_ID=0x");
    push_hex(&mut e, new_motor as u64, 0);
    e.append(", MST_ID=0x");
    push_hex(&mut e, new_feedback as u64, 0);
    e.append(", got ESC_ID=0x");
    push_hex(&mut e, esc as u64, 0);
    e.append(", MST_ID=0x");
    push_hex(&mut e, mst as u64, 0);
    Err(e)
}

/// The command the RobStride runner repeats.
#[derive(Clone, Copy, Debug, PartialEq, Eq, Structural)]
pub enum RobstrideCliCommand {
    Enable,
    Disable,
    Mit,
    Vel,
}

pub open spec fn robstride_command_named(mode: Seq<char>) -> Option<RobstrideCliCommand> {
    if mode == "enable"@ {
        Some(RobstrideCliCommand::Enable)
    } else if mode == "disable"@ {
        Some(RobstrideCliCommand::Disable)
    } else if mode == "mit"@ {
        Some(RobstrideCliCommand::Mit)
    } else if mode == "vel"@ {
        Some(RobstrideCliCommand::Vel)
    } else {
        None
    }
}

/// What the RobStride runner does in a control mode.
#[derive(Clone, Copy, Debug, PartialEq, Eq, Structural)]
pub struct RobstrideRunPlan {
    pub enable_first: bool,
    pub ensure_mode: Option<RobstrideMode>,
    /// `None`: the first round fails on the mode.
    pub command: Option<RobstrideCliCommand>,
    pub finish: Finish,
}

/// Every mode but `disable` enables first; only `mit` and `vel` switch modes.
pub open spec fn robstride_run_plan_of(mode: Seq<char>, ensure: bool) -> RobstrideRunPlan {
    RobstrideRunPlan {
        enable_first: mode != "disable"@,
        ensure_mode: if ensure && mode == "mit"@ {
            Some(RobstrideMode::Mit)
        } else if ensure && mode == "vel"@ {
            Some(RobstrideMode::Velocity)
        } else {
            None
        },
        command: robstride_command_named(mode),
        finish: if on_off(mode) {
            Finish::CloseBus
        } else {
            Finish::Shutdown
        },
    }
}

pub fn robstride_run_plan(mode: &str, ensure: bool) -> (r: RobstrideRunPlan)
    ensures
        r == robstride_run_plan_of(mode@, ensure),
{
    let m = chars_of(mode);
    let ms = m.as_slice();
    let command = if is_text(ms, "enable") {
        Some(RobstrideCliCommand::Enable)
    } else if is_text(ms, "disable") {
        Some(RobstrideCliCommand::Disable)
    } else if is_text(ms, "mit") {
        Some(RobstrideCliCommand::Mit)
    } else if is_text(ms, "vel") {
        Some(RobstrideCliCommand::Vel)
    } else {
        None
    };
    let ensure_mode = if ensure && is_text(ms, "mit") {
        Some(RobstrideMode::Mit)
    } else if ensure && is_text(ms, "vel") {
        Some(RobstrideMode::Velocity)
    } else {
        None
    };
    let toggles = is_text(ms, "enable") || is_text(ms, "disable");
    RobstrideRunPlan {
        enable_first: !is_text(ms, "disable"),
        ensure_mode,
        command,
        finish: if toggles {
            Finish::CloseBus
        } else {
            Finish::Shutdown
        },
    }
}

pub open spec fn unknown_vendor_mode_text(vendor_name: Seq<char>, mode: Seq<char>) -> Seq<char> {
    "unknown "@ + vendor_name + " mode: "@ + mode
}

pub fn unknown_vendor_mode(vendor_name: &str, mode: &str) -> (r: String)
    ensures
        r@ == unknown_vendor_mode_text(vendor_name@, mode@),
{
    let mut e = String::from_str("unknown ");
    e.append(vendor_name);
    e.append(" mode: ");
    e.append(mode);
    e
}

/// The command the MyActuator runner repeats.
#[derive(Clone, Copy, Debug, PartialEq, Eq, Structural)]
pub enum MyActuatorCliCommand {
    /// Release the brake.
    Enable,
    /// Shut the motor down.
    Disable,
    Stop,
    SetZero,
    Status,
    Current,
    Vel,
    /// Poll status after the one position setpoint.
    Pos,
    Version,
    ModeQuery,
}

pub open spec fn myactuator_command_named(mode: Seq<char>) -> Option<MyActuatorCliCommand> {
    if mode == "enable"@ {
        Some(MyActuatorCliCommand::Enable)
    } else if mode == "disable"@ {
        Some(MyActuatorCliCommand::Disable)
    } else if mode == "stop"@ {
        Some(MyActuatorCliCommand::Stop)
    } else if mode == "set-zero"@ {
        Some(MyActuatorCliCommand::SetZero)
    } else if mode == "status"@ {
        Some(MyActuatorCliCommand::Status)
    } else if mode == "current"@ {
        Some(MyActuatorCliCommand::Current)
    } else if mode == "vel"@ {
        Some(MyActuatorCliCommand::Vel)
    } else if mode == "pos"@ {
        Some(MyActuatorCliCommand::Pos)
    } else if mode == "version"@ {
        Some(MyActuatorCliCommand::Version)
    } else if mode == "mode-query"@ {
        Some(MyActuatorCliCommand::ModeQuery)
    } else {
        None
    }
}

/// What the MyActuator runner does in a mode.
#[derive(Clone, Copy, Debug, PartialEq, Eq, Structural)]
pub struct MyActuatorRunPlan {
    /// Release the brake before anything else (every mode but `disable`).
    pub release_brake_first: bool,
    /// Send one absolute position setpoint before the rounds (`pos`).
    pub position_setpoint_first: bool,
    /// `None`: the first round fails on the mode.
    pub command: Option<MyActuatorCliCommand>,
    pub finish: Finish,
}

pub open spec fn myactuator_run_plan_of(mode: Seq<char>) -> MyActuatorRunPlan {
    MyActuatorRunPlan {
        release_brake_first: mode != "disable"@,
        position_setpoint_first: mode == "pos"@,
        command: myactuator_command_named(mode),
        finish: if mode == "disable"@ {
            Finish::CloseBus
        } else {
            Finish::Shutdown
        },
    }
}

fn myactuator_command(m: &[char]) -> (r: Option<MyActuatorCliCommand>)
    ensures
        r == myactuator_command_named(m@),
{
    if is_text(m, "enable") {
        Some(MyActuatorCliCommand::Enable)
    } else if is_text(m, "disable") {
        Some(MyActuatorCliCommand::Disable)
    } else if is_text(m, "stop") {
        Some(MyActuatorCliCommand::Stop)
    } else if is_text(m, "set-zero") {
        Some(MyActuatorCliCommand::SetZero)
    } else if is_text(m, "status") {
        Some(MyActuatorCliCommand::Status)
    } else if is_text(m, "current") {
        Some(MyActuatorCliCommand::Current)
    } else if is_text(m, "vel") {
        Some(MyActuatorCliCommand::Vel)
    } else if is_text(m, "pos") {
        Some(MyActuatorCliCommand::Pos)
    } else if is_text(m, "version") {
        Some(MyActuatorCliCommand::Version)
    } else if is_text(m, "mode-query") {
        Some(MyActuatorCliCommand::ModeQuery)
    } else {
        None
    }
}

pub fn myactuator_run_plan(mode: &str) -> (r: MyActuatorRunPlan)
    ensures
        r == myactuator_run_plan_of(mode@),
{
    let m = chars_of(mode);
    let ms = m.as_slice();
    let disable = is_text(ms, "disable");
    MyActuatorRunPlan {
        release_brake_first: !disable,
        position_setpoint_first: is_text(ms, "pos"),
        command: myactuator_command(ms),
        finish: if disable {
            Finish::CloseBus
        } else {
            Finish::Shutdown
        },
    }
}

pub open spec fn unknown_myactuator_mode_text(mode: Seq<char>) -> Seq<char> {
    "unknown MyActuator mode: "@ + mode
        + " (supported: scan|enable|disable|stop|set-zero|status|current|vel|pos|version|mode-query)"@
}

pub fn unknown_myactuator_mode(mode: &str) -> (r: String)
    ensures
        r@ == unknown_myactuator_mode_text(mode@),
{
    let mut e = String::from_str("unknown MyActuator mode: ");
    e.append(mode);
    e.append(
        " (supported: scan|enable|disable|stop|set-zero|status|current|vel|pos|version|mode-query)",
    );
    e
}

/// What the HexFellow runner does.
#[derive(Clone, Copy, Debug, PartialEq, Eq, Structural)]
pub enum HexfellowCliCommand {
    Scan,
    Enable,
    Disable,
    Status,
    PosVel,
    Mit,
}

pub open spec fn hexfellow_command_of(transport: Seq<char>, mode: Seq<char>) -> Result<
    HexfellowCliCommand,
    Seq<char>,
> {
    if transport != "auto"@ && transport != "socketcanfd"@ {
        Err("hexfellow only supports --transport auto|socketcanfd"@)
    } else if mode == "scan"@ {
        Ok(HexfellowCliCommand::Scan)
    } else if mode == "enable"@ {
        Ok(HexfellowCliCommand::Enable)
    } else if mode == "disable"@ {
        Ok(HexfellowCliCommand::Disable)
    } else if mode == "status"@ {
        Ok(HexfellowCliCommand::Status)
    } else if mode == "pos-vel"@ {
        Ok(HexfellowCliCommand::PosVel)
    } else if mode == "mit"@ {
        Ok(HexfellowCliCommand::Mit)
    } else {
        Err("unknown hexfellow mode: expected scan|status|enable|disable|pos-vel|mit"@)
    }
}

pub fn hexfellow_command(transport: &str, mode: &str) -> (r: Result<HexfellowCliCommand, String>)
    ensures
        match hexfellow_command_of(transport@, mode@) {
            Ok(c) => r == Ok::<HexfellowCliCommand, String>(c),
            Err(m) => r matches Err(e) && e@ == m,
        },
{
    let t = chars_of(transport);
    let m = chars_of(mode);
    let ms = m.as_slice();
    if !is_text(t.as_slice(), "auto") && !is_text(t.as_slice(), "socketcanfd") {
        Err(String::from_str("hexfellow only supports --transport auto|socketcanfd"))
    } else if is_text(ms, "scan") {
        Ok(HexfellowCliCommand::Scan)
    } else if is_text(ms, "enable") {
        Ok(HexfellowCliCommand::Enable)
    } else if is_text(ms, "disable") {
        Ok(HexfellowCliCommand::Disable)
    } else if is_text(ms, "status") {
        Ok(HexfellowCliCommand::Status)
    } else if is_text(ms, "pos-vel") {
        Ok(HexfellowCliCommand::PosVel)
    } else if is_text(ms, "mit") {
        Ok(HexfellowCliCommand::Mit)
    } else {
        Err(String::from_str("unknown hexfellow mode: expected scan|status|enable|disable|pos-vel|mit"))
    }
}

pub open spec fn param_value_error_text(k: IntErrorKind) -> Seq<char> {
    "invalid --param-value: "@ + int_error_text(k)
}

/// The value `--param-value` gives for a RobStride parameter of type `kind` (the
/// vendor's parameter table says which): an `i8` or `u8` in decimal, a `u16` or `u32`
/// in decimal or after `0x` in hexadecimal; a float is read by the caller.
pub open spec fn cli_param_value_of(kind: ParamKind, raw: Seq<char>) -> Result<ParamWrite, Seq<char>> {
    match kind {
        ParamKind::I8 => match parse_i8(raw) {
            Ok(v) => Ok(ParamWrite::I8(v as i8)),
            Err(k) => Err(param_value_error_text(k)),
        },
        ParamKind::U8 => match parse_uint(raw, 10, 255) {
            Ok(v) => Ok(ParamWrite::U8(v as u8)),
            Err(k) => Err(param_value_error_text(k)),
        },
        ParamKind::U16 => match hex_or_dec(raw, 0xFFFF) {
            Ok(v) => Ok(ParamWrite::U16(v as u16)),
            Err(k) => Err(param_value_error_text(k)),
        },
        ParamKind::U32 => match hex_or_dec(raw, 0xFFFF_FFFF) {
            Ok(v) => Ok(ParamWrite::U32(v as u32)),
            Err(k) => Err(param_value_error_text(k)),
        },
        ParamKind::F32 => Ok(ParamWrite::F32),
    }
}

fn param_value_error(k: IntErrorKind) -> (r: String)
    ensures
        r@ == param_value_error_text(k),
{
    let mut e = String::from_str("invalid --param-value: ");
    e.append(int_error_message(k).as_str());
    e
}

pub fn robstride_cli_param_value(kind: ParamKind, raw: &str) -> (r: Result<ParamWrite, String>)
    ensures
        match cli_param_value_of(kind, raw@) {
            Ok(w) => r == Ok::<ParamWrite, String>(w),
            Err(m) => r matches Err(e) && e@ == m,
        },
{
    let v = chars_of(raw);
    match kind {
        ParamKind::I8 => match parse_i8_chars(v.as_slice()) {
            Ok(n) => Ok(ParamWrite::I8(n)),
            Err(k) => Err(param_value_error(k)),
        },
        ParamKind::U8 => match parse_uint_chars(v.as_slice(), 10, 255) {
            Ok(n) => Ok(ParamWrite::U8(n as u8)),
            Err(k) => Err(param_value_error(k)),
        },
        ParamKind::U16 => match hex_or_dec_chars(v.as_slice(), 0xFFFF) {
            Ok(n) => Ok(ParamWrite::U16(n as u16)),
            Err(k) => Err(param_value_error(k)),
        },
        ParamKind::U32 => match hex_or_dec_chars(v.as_slice(), 0xFFFF_FFFF) {
            Ok(n) => Ok(ParamWrite::U32(n as u32)),
            Err(k) => Err(param_value_error(k)),
        },
        ParamKind::F32 => Ok(ParamWrite::F32),
    }
}

} // verus!
