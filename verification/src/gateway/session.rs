//! A gateway session's decisions: which control operation a request names and
//! whether the connected motor takes it, when the state stream sends a snapshot,
//! how a RobStride mode switch is retried, and what each socket event leads to.
use vstd::prelude::*;
use crate::gateway::message::{str_field, MsgValue};
use crate::gateway::model::Vendor;
use crate::text::{
    chars_of, dec_text, is_text, push_char, push_dec, str_to_lowercase, unicode_lower,
};

verus! {

/// The operation a request names in `op`, lower-cased; empty when it names none.
pub open spec fn op_text(v: MsgValue) -> Seq<char> {
    match str_field(v, "op"@) {
        Some(s) => unicode_lower(s),
        None => unicode_lower(""@),
    }
}

pub fn request_op(v: &MsgValue) -> (r: String)
    ensures
        r@ == op_text(*v),
{
    match v.get("op") {
        Some(MsgValue::Str(s)) => str_to_lowercase(s.as_str()),
        _ => str_to_lowercase(""),
    }
}

/// The motor control operations a session handles itself.
#[derive(Clone, Copy, Debug, PartialEq, Eq, Structural)]
pub enum ControlOp {
    Mit,
    PosVel,
    Vel,
    ForcePos,
    Current,
    Pos,
    Version,
    ModeQuery,
    Read,
}

/// The operation an op name stands for; `pos_vel`, `force_pos` and `mode_query`
/// may also be written with a hyphen.
pub open spec fn control_op_named(op: Seq<char>) -> Option<ControlOp> {
    if op == "mit"@ {
        Some(ControlOp::Mit)
    } else if op == "pos_vel"@ || op == "pos-vel"@ {
        Some(ControlOp::PosVel)
    } else if op == "vel"@ {
        Some(ControlOp::Vel)
    } else if op == "force_pos"@ || op == "force-pos"@ {
        Some(ControlOp::ForcePos)
    } else if op == "current"@ {
        Some(ControlOp::Current)
    } else if op == "pos"@ {
        Some(ControlOp::Pos)
    } else if op == "version"@ {
        Some(ControlOp::Version)
    } else if op == "mode_query"@ || op == "mode-query"@ {
        Some(ControlOp::ModeQuery)
    } else if op == "read"@ {
        Some(ControlOp::Read)
    } else {
        None
    }
}

pub fn control_op(op: &str) -> (r: Option<ControlOp>)
    ensures
        r == control_op_named(op@),
{
    let v = chars_of(op);
    let s = v.as_slice();
    if is_text(s, "mit") {
        Some(ControlOp::Mit)
    } else if is_text(s, "pos_vel") || is_text(s, "pos-vel") {
        Some(ControlOp::PosVel)
    } else if is_text(s, "vel") {
        Some(ControlOp::Vel)
    } else if is_text(s, "force_pos") || is_text(s, "force-pos") {
        Some(ControlOp::ForcePos)
    } else if is_text(s, "current") {
        Some(ControlOp::Current)
    } else if is_text(s, "pos") {
        Some(ControlOp::Pos)
    } else if is_text(s, "version") {
        Some(ControlOp::Version)
    } else if is_text(s, "mode_query") || is_text(s, "mode-query") {
        Some(ControlOp::ModeQuery)
    } else if is_text(s, "read") {
        Some(ControlOp::Read)
    } else {
        None
    }
}

/// Why the connected motor (of `vendor`, if any) does not take `op`; `None` when it does.
pub open spec fn op_refusal(op: ControlOp, vendor: Option<Vendor>) -> Option<Seq<char>> {
    match vendor {
        None => Some("motor not connected"@),
        Some(x) => match op {
            ControlOp::Mit => if x == Vendor::Myactuator {
                Some("mit is not supported for myactuator"@)
            } else {
                None
            },
            ControlOp::PosVel => match x {
                Vendor::Hightorque => Some("pos_vel is not supported for hightorque"@),
                Vendor::Myactuator => Some("pos_vel is not supported for myactuator"@),
                _ => None,
            },
            ControlOp::Vel => if x == Vendor::Hexfellow {
                Some("vel is not supported for hexfellow; use pos_vel or mit"@)
            } else {
                None
            },
            ControlOp::ForcePos => match x {
                Vendor::Damiao => None,
                Vendor::Robstride => Some("force_pos is not supported for robstride"@),
                Vendor::Hexfellow => Some("force_pos is not supported for hexfellow"@),
                Vendor::Hightorque => Some("force_pos is not supported for hightorque"@),
                Vendor::Myactuator => Some("force_pos is not supported for myactuator"@),
            },
            ControlOp::Current => if x == Vendor::Myactuator {
                None
            } else {
                Some("current is supported for myactuator only"@)
            },
            ControlOp::Pos => if x == Vendor::Myactuator {
                None
            } else {
                Some("pos is supported for myactuator only"@)
            },
            ControlOp::Version => if x == Vendor::Myactuator {
                None
            } else {
                Some("version is supported for myactuator only"@)
            },
            ControlOp::ModeQuery => if x == Vendor::Myactuator {
                None
            } else {
                Some("mode_query is supported for myactuator only"@)
            },
            ControlOp::Read => if x == Vendor::Hightorque {
                None
            } else {
                Some("read op is reserved for hightorque"@)
            },
        },
    }
}

fn text(t: &str) -> (r: Option<String>)
    ensures
        r matches Some(s) && s@ == t@,
{
    Some(String::from_str(t))
}

pub fn refusal_for(op: ControlOp, vendor: Option<Vendor>) -> (r: Option<String>)
    ensures
        match op_refusal(op, vendor) {
            Some(m) => r matches Some(s) && s@ == m,
            None => r is None,
        },
{
    match vendor {
        None => text("motor not connected"),
        Some(x) => match op {
            ControlOp::Mit => match x {
                Vendor::Myactuator => text("mit is not supported for myactuator"),
                _ => None,
            },
            ControlOp::PosVel => match x {
                Vendor::Hightorque => text("pos_vel is not supported for hightorque"),
                Vendor::Myactuator => text("pos_vel is not supported for myactuator"),
                _ => None,
            },
            ControlOp::Vel => match x {
                Vendor::Hexfellow => text("vel is not supported for hexfellow; use pos_vel or mit"),
                _ => None,
            },
            ControlOp::ForcePos => match x {
                Vendor::Damiao => None,
                Vendor::Robstride => text("force_pos is not supported for robstride"),
                Vendor::Hexfellow => text("force_pos is not supported for hexfellow"),
                Vendor::Hightorque => text("force_pos is not supported for hightorque"),
                Vendor::Myactuator => text("force_pos is not supported for myactuator"),
            },
            ControlOp::Current => match x {
                Vendor::Myactuator => None,
                _ => text("current is supported for myactuator only"),
            },
            ControlOp::Pos => match x {
                Vendor::Myactuator => None,
                _ => text("pos is supported for myactuator only"),
            },
            ControlOp::Version => match x {
                Vendor::Myactuator => None,
                _ => text("version is supported for myactuator only"),
            },
            ControlOp::ModeQuery => match x {
                Vendor::Myactuator => None,
                _ => text("mode_query is supported for myactuator only"),
            },
            ControlOp::Read => match x {
                Vendor::Hightorque => None,
                _ => text("read op is reserved for hightorque"),
            },
        },
    }
}

/// Every how many ticks the state stream sends a snapshot.
pub const STATE_TICK_DIV: u64 = 5;

/// The state stream's tick counter.
pub struct StreamTicker {
    pub counter: u64,
}

impl StreamTicker {
    pub fn new() -> (t: Self)
        ensures
            t.counter == 0,
    {
        StreamTicker { counter: 0 }
    }

    /// One tick: counts (wrapping) only while the stream is on and a motor is
    /// connected, and says whether this tick sends a snapshot.
    pub fn tick(&mut self, stream_enabled: bool, has_motor: bool) -> (send: bool)
        ensures
            stream_enabled && has_motor ==> final(self).counter == (if old(self).counter
                == u64::MAX {
                0
            } else {
                old(self).counter + 1
            }) && send == (final(self).counter % STATE_TICK_DIV == 0),
            !(stream_enabled && has_motor) ==> final(self).counter == old(self).counter && !send,
    {
        if stream_enabled && has_motor {
            self.counter = self.counter.wrapping_add(1);
            self.counter % STATE_TICK_DIV == 0
        } else {
            false
        }
    }
}

/// Where a RobStride mode switch stands: the mode value wanted, the attempts made
/// (at most three) and the value last read back.
pub struct ModeSwitch {
    pub expect: i8,
    pub attempts: u8,
    pub actual: Option<i8>,
}

/// What to do after an attempt's read-back.
#[derive(Clone, Copy, Debug, PartialEq, Eq, Structural)]
pub enum SwitchStep {
    /// Set the mode again and read back.
    Retry,
    /// The motor is in the wanted mode.
    Done,
    /// Three attempts failed.
    Failed,
}

impl ModeSwitch {
    pub fn new(expect: i8) -> (s: Self)
        ensures
            s.expect == expect,
            s.attempts == 0,
            s.actual is None,
    {
        ModeSwitch { expect, attempts: 0, actual: None }
    }

    /// Records one attempt's read-back (`None` when the read failed): a read value
    /// replaces the last one; the switch is done once the last value read is the
    /// wanted one, and fails after the third attempt otherwise.
    pub fn record(&mut self, read: Option<i8>) -> (step: SwitchStep)
        requires
            old(self).attempts < 3,
        ensures
            final(self).expect == old(self).expect,
            final(self).attempts == old(self).attempts + 1,
            final(self).actual == (match read {
                Some(x) => Some(x),
                None => old(self).actual,
            }),
            step == (if read == Some(old(self).expect) {
                SwitchStep::Done
            } else if final(self).attempts >= 3 {
                if final(self).actual == Some(old(self).expect) {
                    SwitchStep::Done
                } else {
                    SwitchStep::Failed
                }
            } else {
                SwitchStep::Retry
            }),
    {
        self.attempts = self.attempts + 1;
        if let Some(x) = read {
            self.actual = Some(x);
            if x == self.expect {
                return SwitchStep::Done;
            }
        }
        if self.attempts >= 3 {
            if self.actual == Some(self.expect) {
                SwitchStep::Done
            } else {
                SwitchStep::Failed
            }
        } else {
            SwitchStep::Retry
        }
    }
}

/// `n` in decimal with a leading `-` when negative.
pub open spec fn signed_text(n: i8) -> Seq<char> {
    if n < 0 {
        seq!['-'] + dec_text((-n) as nat)
    } else {
        dec_text(n as nat)
    }
}

/// The refusal after a failed RobStride mode switch, e.g.
/// `robstride vel mode switch failed: expect=2 actual=Some(0)`.
pub open spec fn switch_failed_text(mode_name: Seq<char>, expect: i8, actual: Option<i8>) -> Seq<
    char,
> {
    "robstride "@ + mode_name + " mode switch failed: expect="@ + signed_text(expect)
        + " actual="@ + match actual {
        Some(a) => "Some("@ + signed_text(a) + ")"@,
        None => "None"@,
    }
}

fn push_signed(s: &mut String, n: i8)
    ensures
        final(s)@ == old(s)@ + signed_text(n),
{
    if n < 0 {
        push_char(s, '-');
        let m: i16 = -(n as i16);
        push_dec(s, m as u64);
        assert(final(s)@ =~= old(s)@ + signed_text(n));
    } else {
        push_dec(s, n as u64);
    }
}

pub fn switch_failed_message(mode_name: &str, expect: i8, actual: Option<i8>) -> (r: String)
    ensures
        r@ == switch_failed_text(mode_name@, expect, actual),
{
    let mut m = String::from_str("robstride ");
    m.append(mode_name);
    m.append(" mode switch failed: expect=");
    push_signed(&mut m, expect);
    m.append(" actual=");
    match actual {
        Some(a) => {
            m.append("Some(");
            push_signed(&mut m, a);
            m.append(")");
        },
        None => {
            m.append("None");
        },
    }
    proof {
        assert(m@ =~= switch_failed_text(mode_name@, expect, actual));
    }
    m
}

/// What arrived on a session's socket.
pub enum SocketEvent {
    /// A text message: its JSON as a value, or the parser's complaint.
    Text(Result<MsgValue, String>),
    Ping(Vec<u8>),
    Close,
    /// The peer went away without a close message.
    Ended,
    /// Receiving failed.
    RecvError(String),
    /// Any other message.
    Other,
}

/// What the session does about it.
pub enum SocketAction {
    /// Run the operation the request names and answer with its result.
    Dispatch(String),
    /// Answer with this error and go on.
    ReplyError(String),
    Pong(Vec<u8>),
    /// End the session normally.
    Stop,
    /// End the session with this error.
    Fail(String),
    Ignore,
}

pub fn socket_step(ev: SocketEvent) -> (a: SocketAction)
    ensures
        match ev {
            SocketEvent::Text(Ok(v)) => a matches SocketAction::Dispatch(op) && op@ == op_text(v),
            SocketEvent::Text(Err(e)) => a matches SocketAction::ReplyError(m) && m@ == "invalid json: "@
                + e@,
            SocketEvent::Ping(p) => a matches SocketAction::Pong(q) && q@ == p@,
            SocketEvent::Close => a is Stop,
            SocketEvent::Ended => a is Stop,
            SocketEvent::RecvError(e) => a matches SocketAction::Fail(m) && m@ == "ws recv error: "@
                + e@,
            SocketEvent::Other => a is Ignore,
        },
{
    match ev {
        SocketEvent::Text(Ok(v)) => SocketAction::Dispatch(request_op(&v)),
        SocketEvent::Text(Err(e)) => {
            let mut m = String::from_str("invalid json: ");
            m.append(e.as_str());
            SocketAction::ReplyError(m)
        },
        SocketEvent::Ping(p) => SocketAction::Pong(p),
        SocketEvent::Close => SocketAction::Stop,
        SocketEvent::Ended => SocketAction::Stop,
        SocketEvent::RecvError(e) => {
            let mut m = String::from_str("ws recv error: ");
            m.append(e.as_str());
            SocketAction::Fail(m)
        },
        SocketEvent::Other => SocketAction::Ignore,
    }
}

/// The reply to a request: `ok`, then the operation when there is one, then `data`
/// on success or `error` on failure, then the request's `req_id` when it had one.
pub fn reply_object(op: Option<String>, result: Result<MsgValue, String>, req_id: Option<MsgValue>) -> (r:
    MsgValue)
    ensures
        r matches MsgValue::Object(ms) && {
            let k: int = if op is Some {
                2
            } else {
                1
            };
            &&& ms@.len() == k + 1 + (if req_id is Some {
                1int
            } else {
                0int
            })
            &&& ms@[0].0@ == "ok"@ && ms@[0].1 == MsgValue::Bool(result is Ok)
            &&& (op matches Some(o) ==> ms@[1].0@ == "op"@ && ms@[1].1 == MsgValue::Str(o))
            &&& (result matches Ok(d) ==> ms@[k].0@ == "data"@ && ms@[k].1 == d)
            &&& (result matches Err(e) ==> ms@[k].0@ == "error"@ && ms@[k].1 == MsgValue::Str(e))
            &&& (req_id matches Some(id) ==> ms@[k + 1].0@ == "req_id"@ && ms@[k + 1].1 == id)
        },
{
    let mut ms: Vec<(String, MsgValue)> = Vec::new();
    let ok = result.is_ok();
    ms.push((String::from_str("ok"), MsgValue::Bool(ok)));
    match op {
        Some(o) => ms.push((String::from_str("op"), MsgValue::Str(o))),
        None => {},
    }
    match result {
        Ok(d) => ms.push((String::from_str("data"), d)),
        Err(e) => ms.push((String::from_str("error"), MsgValue::Str(e))),
    }
    match req_id {
        Some(id) => ms.push((String::from_str("req_id"), id)),
        None => {},
    }
    MsgValue::Object(ms)
}

} // verus!
