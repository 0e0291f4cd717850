//! What the HighTorque command line does in each mode: the frames it sends, when it
//! waits for a status reply, and how often it repeats. Reading the arguments,
//! printing and waiting are done by the application.
use vstd::prelude::*;
use crate::hightorque::{
    i16_to_le, le_hi, le_i16, le_lo, le_round_trip, pos_vel_tqe_bytes, pos_vel_tqe_payload,
    read_request, rezero_payload, stop_payload, store_payload, vel_tqe_bytes, vel_tqe_payload,
};
use crate::text::{chars_of, is_text};

verus! {

/// The raw values a command may carry, already read from the arguments.
#[derive(Clone, Copy, Debug)]
pub struct HtRawArgs {
    pub pos: i16,
    pub vel: i16,
    pub tqe: i16,
    pub vol: i16,
    pub cur: i16,
    pub period_ms: i16,
}

/// One thing to do on the bus.
#[derive(Clone, Debug)]
pub enum HtStep {
    /// Send this payload to the motor.
    Send(Vec<u8>),
    /// Ask the motor for its status and wait for the reply.
    ReadStatus,
    /// Wait this many milliseconds.
    PauseMs(u64),
}

/// A step as plain values.
pub enum StepView {
    Send(Seq<u8>),
    ReadStatus,
    PauseMs(u64),
}

pub open spec fn step_view(s: HtStep) -> StepView {
    match s {
        HtStep::Send(p) => StepView::Send(p@),
        HtStep::ReadStatus => StepView::ReadStatus,
        HtStep::PauseMs(ms) => StepView::PauseMs(ms),
    }
}

pub open spec fn steps_view(s: Seq<HtStep>) -> Seq<StepView> {
    Seq::new(s.len(), |i: int| step_view(s[i]))
}

/// Position with a torque limit (`0x07 0x07`, position, `0x00 0x00`, torque).
pub open spec fn pos_tqe_payload(pos: i16, tqe: i16) -> Seq<u8> {
    seq![0x07u8, 0x07, le_lo(pos), le_hi(pos), 0x00, 0x00, le_lo(tqe), le_hi(tqe)]
}

/// Torque alone (`0x05 0x13`, torque).
pub open spec fn tqe_payload(tqe: i16) -> Seq<u8> {
    seq![0x05u8, 0x13, le_lo(tqe), le_hi(tqe)]
}

/// Voltage (`0x01 0x00 0x08 0x05 0x1B`, value).
pub open spec fn volt_payload(vol: i16) -> Seq<u8> {
    seq![0x01u8, 0x00, 0x08, 0x05, 0x1B, le_lo(vol), le_hi(vol)]
}

/// Current (`0x01 0x00 0x09 0x05 0x1C`, value).
pub open spec fn cur_payload(cur: i16) -> Seq<u8> {
    seq![0x01u8, 0x00, 0x09, 0x05, 0x1C, le_lo(cur), le_hi(cur)]
}

/// Brake (`0x01 0x00 0x0F`).
pub open spec fn brake_payload() -> Seq<u8> {
    seq![0x01u8, 0x00, 0x0F]
}

/// Periodic status report every `period_ms` (`0x05 0xB4 0x02`, period).
pub open spec fn timed_read_payload(period_ms: i16) -> Seq<u8> {
    seq![0x05u8, 0xB4, 0x02, le_lo(period_ms), le_hi(period_ms)]
}

/// The steps of one round of `mode`, or `None` for a mode the command line does not know.
pub open spec fn mode_steps(mode: Seq<char>, a: HtRawArgs) -> Option<Seq<StepView>> {
    if mode == "ping"@ || mode == "read"@ {
        Some(seq![StepView::ReadStatus])
    } else if mode == "pos"@ {
        Some(seq![StepView::Send(pos_tqe_payload(a.pos, a.tqe))])
    } else if mode == "vel"@ {
        Some(seq![StepView::Send(vel_tqe_payload(a.vel, a.tqe))])
    } else if mode == "tqe"@ {
        Some(seq![StepView::Send(tqe_payload(a.tqe))])
    } else if mode == "mit"@ || mode == "pos-vel-tqe"@ {
        Some(seq![StepView::Send(pos_vel_tqe_payload(a.pos, a.vel, a.tqe))])
    } else if mode == "pos-vel"@ {
        Some(seq![StepView::Send(pos_vel_tqe_payload(a.pos, a.vel, i16::MIN))])
    } else if mode == "volt"@ {
        Some(seq![StepView::Send(volt_payload(a.vol))])
    } else if mode == "cur"@ {
        Some(seq![StepView::Send(cur_payload(a.cur))])
    } else if mode == "stop"@ {
        Some(seq![StepView::Send(stop_payload())])
    } else if mode == "brake"@ {
        Some(seq![StepView::Send(brake_payload())])
    } else if mode == "conf-write"@ {
        Some(seq![StepView::Send(store_payload())])
    } else if mode == "rezero"@ {
        Some(
            seq![
                StepView::Send(rezero_payload()),
                StepView::PauseMs(1000),
                StepView::Send(store_payload()),
            ],
        )
    } else if mode == "timed-read"@ {
        Some(seq![StepView::Send(timed_read_payload(a.period_ms))])
    } else {
        None
    }
}

pub open spec fn unknown_mode_text(mode: Seq<char>) -> Seq<char> {
    "unknown hightorque mode: "@ + mode
        + ". expected ping|scan|read|mit|pos|vel|tqe|volt|cur|pos-vel|pos-vel-tqe|stop|brake|rezero|conf-write|timed-read"@
}

fn bytes_of(a: &[u8]) -> (v: Vec<u8>)
    ensures
        v@ == a@,
{
    let mut v: Vec<u8> = Vec::new();
    let mut i: usize = 0;
    while i < a.len()
        invariant
            i <= a@.len(),
            v@ == a@.subrange(0, i as int),
        decreases a@.len() - i,
    {
        v.push(a[i]);
        i = i + 1;
        assert(v@ =~= a@.subrange(0, i as int));
    }
    assert(v@ =~= a@);
    v
}

fn one(p: Vec<u8>) -> (r: Vec<HtStep>)
    ensures
        steps_view(r@) == seq![StepView::Send(p@)],
{
    let mut r: Vec<HtStep> = Vec::new();
    r.push(HtStep::Send(p));
    assert(steps_view(r@) =~= seq![StepView::Send(p@)]);
    r
}

/// The steps of one round of `mode` (the scan has its own plan).
pub fn hightorque_mode_steps(mode: &str, a: HtRawArgs) -> (r: Result<Vec<HtStep>, String>)
    ensures
        match mode_steps(mode@, a) {
            Some(s) => r matches Ok(v) && steps_view(v@) == s,
            None => r matches Err(e) && e@ == unknown_mode_text(mode@),
        },
{
    let m = chars_of(mode);
    let m = m.as_slice();
    if is_text(m, "ping") || is_text(m, "read") {
        let mut r: Vec<HtStep> = Vec::new();
        r.push(HtStep::ReadStatus);
        assert(steps_view(r@) =~= seq![StepView::ReadStatus]);
        return Ok(r);
    }
    if is_text(m, "pos") {
        let (p0, p1) = i16_to_le(a.pos);
        let (t0, t1) = i16_to_le(a.tqe);
        let d = [0x07u8, 0x07, p0, p1, 0x00, 0x00, t0, t1];
        assert(d@ =~= pos_tqe_payload(a.pos, a.tqe));
        return Ok(one(bytes_of(&d)));
    }
    if is_text(m, "vel") {
        let d = vel_tqe_bytes(a.vel, a.tqe);
        return Ok(one(bytes_of(&d)));
    }
    if is_text(m, "tqe") {
        let (t0, t1) = i16_to_le(a.tqe);
        let d = [0x05u8, 0x13, t0, t1];
        assert(d@ =~= tqe_payload(a.tqe));
        return Ok(one(bytes_of(&d)));
    }
    if is_text(m, "mit") || is_text(m, "pos-vel-tqe") {
        let d = pos_vel_tqe_bytes(a.pos, a.vel, a.tqe);
        return Ok(one(bytes_of(&d)));
    }
    if is_text(m, "pos-vel") {
        let d = pos_vel_tqe_bytes(a.pos, a.vel, i16::MIN);
        return Ok(one(bytes_of(&d)));
    }
    if is_text(m, "volt") {
        let (v0, v1) = i16_to_le(a.vol);
        let d = [0x01u8, 0x00, 0x08, 0x05, 0x1B, v0, v1];
        assert(d@ =~= volt_payload(a.vol));
        return Ok(one(bytes_of(&d)));
    }
    if is_text(m, "cur") {
        let (c0, c1) = i16_to_le(a.cur);
        let d = [0x01u8, 0x00, 0x09, 0x05, 0x1C, c0, c1];
        assert(d@ =~= cur_payload(a.cur));
        return Ok(one(bytes_of(&d)));
    }
    if is_text(m, "stop") {
        let d = [0x01u8, 0x00, 0x00];
        assert(d@ =~= stop_payload());
        return Ok(one(bytes_of(&d)));
    }
    if is_text(m, "brake") {
        let d = [0x01u8, 0x00, 0x0F];
        assert(d@ =~= brake_payload());
        return Ok(one(bytes_of(&d)));
    }
    if is_text(m, "conf-write") {
        let d = [0x05u8, 0xB3, 0x02, 0x00, 0x00];
        assert(d@ =~= store_payload());
        return Ok(one(bytes_of(&d)));
    }
    if is_text(m, "rezero") {
        let z = [0x40u8, 0x01, 0x04, 0x64, 0x20, 0x63, 0x0A];
        let s = [0x05u8, 0xB3, 0x02, 0x00, 0x00];
        assert(z@ =~= rezero_payload());
        assert(s@ =~= store_payload());
        let mut r: Vec<HtStep> = Vec::new();
        r.push(HtStep::Send(bytes_of(&z)));
        r.push(HtStep::PauseMs(1000));
        r.push(HtStep::Send(bytes_of(&s)));
        assert(steps_view(r@) =~= seq![
            StepView::Send(rezero_payload()),
            StepView::PauseMs(1000),
            StepView::Send(store_payload()),
        ]);
        return Ok(r);
    }
    if is_text(m, "timed-read") {
        let (t0, t1) = i16_to_le(a.period_ms);
        let d = [0x05u8, 0xB4, 0x02, t0, t1];
        assert(d@ =~= timed_read_payload(a.period_ms));
        return Ok(one(bytes_of(&d)));
    }
    let mut e = String::from_str("unknown hightorque mode: ");
    e.append(mode);
    e.append(
        ". expected ping|scan|read|mit|pos|vel|tqe|volt|cur|pos-vel|pos-vel-tqe|stop|brake|rezero|conf-write|timed-read",
    );
    Err(e)
}

/// How many rounds a mode runs: once for `scan`, `ping` and `read`, else `loop` times
/// and at least once.
pub open spec fn rounds(mode: Seq<char>, loop_n: u64) -> u64 {
    if mode == "scan"@ || mode == "ping"@ || mode == "read"@ {
        1
    } else if loop_n == 0 {
        1
    } else {
        loop_n
    }
}

pub fn hightorque_send_count(mode: &str, loop_n: u64) -> (r: u64)
    ensures
        r == rounds(mode@, loop_n),
{
    let m = chars_of(mode);
    if is_text(m.as_slice(), "scan") || is_text(m.as_slice(), "ping") || is_text(
        m.as_slice(),
        "read",
    ) {
        1
    } else if loop_n == 0 {
        1
    } else {
        loop_n
    }
}

/// The ids a HighTorque scan probes: both ends clamped to `1..=127`; `None` when the
/// clamped start lies after the clamped end.
pub open spec fn clamped_range(start: u16, end: u16) -> Option<(u16, u16)> {
    let s = if start < 1 { 1u16 } else if start > 127 { 127u16 } else { start };
    let e = if end < 1 { 1u16 } else if end > 127 { 127u16 } else { end };
    if s > e {
        None
    } else {
        Some((s, e))
    }
}

pub fn hightorque_scan_range(start: u16, end: u16) -> (r: Option<(u16, u16)>)
    ensures
        r == clamped_range(start, end),
{
    let s = if start < 1 {
        1
    } else if start > 127 {
        127
    } else {
        start
    };
    let e = if end < 1 {
        1
    } else if end > 127 {
        127
    } else {
        end
    };
    if s > e {
        None
    } else {
        Some((s, e))
    }
}

/// Every payload a mode sends fits in one classic CAN frame (at most eight bytes), and
/// every mode the command line knows does something.
pub proof fn mode_payloads_fit_a_frame(mode: Seq<char>, a: HtRawArgs)
    ensures
        match mode_steps(mode, a) {
            Some(s) => s.len() >= 1 && forall|i: int|
                0 <= i < s.len() ==> (#[trigger] s[i] matches StepView::Send(p) ==> p.len() <= 8),
            None => true,
        },
{
}

/// The one payload a mode sends, when it sends exactly one frame and nothing else.
pub open spec fn single_payload(mode: Seq<char>, a: HtRawArgs) -> Option<Seq<u8>> {
    match mode_steps(mode, a) {
        Some(s) => if s.len() == 1 {
            match s[0] {
                StepView::Send(p) => Some(p),
                _ => None,
            }
        } else {
            None
        },
        None => None,
    }
}

/// The little-endian `i16` at bytes `k` and `k + 1` of a payload.
pub open spec fn field_at(p: Seq<u8>, k: int) -> i16 {
    le_i16(p[k], p[k + 1])
}

/// The mode names, told apart by their length and first two letters.
proof fn lemma_mode_names()
    ensures
        "ping"@.len() == 4 && "ping"@[0] == 'p' && "ping"@[1] == 'i',
        "read"@.len() == 4 && "read"@[0] == 'r' && "read"@[1] == 'e',
        "pos"@.len() == 3 && "pos"@[0] == 'p' && "pos"@[1] == 'o',
        "vel"@.len() == 3 && "vel"@[0] == 'v' && "vel"@[1] == 'e',
        "tqe"@.len() == 3 && "tqe"@[0] == 't' && "tqe"@[1] == 'q',
        "mit"@.len() == 3 && "mit"@[0] == 'm' && "mit"@[1] == 'i',
        "pos-vel-tqe"@.len() == 11 && "pos-vel-tqe"@[0] == 'p' && "pos-vel-tqe"@[1] == 'o',
        "pos-vel"@.len() == 7 && "pos-vel"@[0] == 'p' && "pos-vel"@[1] == 'o',
        "volt"@.len() == 4 && "volt"@[0] == 'v' && "volt"@[1] == 'o',
        "cur"@.len() == 3 && "cur"@[0] == 'c' && "cur"@[1] == 'u',
        "stop"@.len() == 4 && "stop"@[0] == 's' && "stop"@[1] == 't',
        "brake"@.len() == 5 && "brake"@[0] == 'b' && "brake"@[1] == 'r',
        "conf-write"@.len() == 10 && "conf-write"@[0] == 'c' && "conf-write"@[1] == 'o',
        "rezero"@.len() == 6 && "rezero"@[0] == 'r' && "rezero"@[1] == 'e',
        "timed-read"@.len() == 10 && "timed-read"@[0] == 't' && "timed-read"@[1] == 'i',
        "scan"@.len() == 4 && "scan"@[0] == 's' && "scan"@[1] == 'c',
{
    reveal_strlit("ping");
    reveal_strlit("read");
    reveal_strlit("pos");
    reveal_strlit("vel");
    reveal_strlit("tqe");
    reveal_strlit("mit");
    reveal_strlit("pos-vel-tqe");
    reveal_strlit("pos-vel");
    reveal_strlit("volt");
    reveal_strlit("cur");
    reveal_strlit("stop");
    reveal_strlit("brake");
    reveal_strlit("conf-write");
    reveal_strlit("rezero");
    reveal_strlit("timed-read");
    reveal_strlit("scan");
}

/// The position/velocity/torque command (`mit` and `pos-vel-tqe`; `pos-vel` with no
/// torque limit, `i16::MIN`) is one eight-byte frame `0x07 0x35` whose fields read back
/// as the requested velocity (bytes 2–3), torque (4–5) and position (6–7).
pub proof fn pos_vel_tqe_fields_read_back(a: HtRawArgs)
    ensures
        single_payload("mit"@, a) matches Some(p) && p.len() == 8 && p[0] == 0x07 && p[1] == 0x35
            && field_at(p, 2) == a.vel && field_at(p, 4) == a.tqe && field_at(p, 6) == a.pos,
        single_payload("pos-vel-tqe"@, a) matches Some(p) && p.len() == 8 && p[0] == 0x07 && p[1]
            == 0x35 && field_at(p, 2) == a.vel && field_at(p, 4) == a.tqe && field_at(p, 6) == a.pos,
        single_payload("pos-vel"@, a) matches Some(p) && p.len() == 8 && p[0] == 0x07 && p[1]
            == 0x35 && field_at(p, 2) == a.vel && field_at(p, 4) == i16::MIN && field_at(p, 6)
            == a.pos,
{
    lemma_mode_names();
    le_round_trip(a.pos);
    le_round_trip(a.vel);
    le_round_trip(a.tqe);
    le_round_trip(i16::MIN);
}

/// The other single-frame commands carry their values where the motor reads them:
/// `pos` the position at bytes 2–3 and the torque limit at 6–7; `vel` the velocity at
/// 4–5 and the torque limit at 6–7, with no position (`i16::MIN`) at 2–3; `tqe` the
/// torque at 2–3 of a four-byte frame; `volt` and `cur` their value at 5–6 of a
/// seven-byte frame; `timed-read` the period at 3–4 of a five-byte frame.
pub proof fn command_fields_read_back(a: HtRawArgs)
    ensures
        single_payload("pos"@, a) matches Some(p) && p.len() == 8 && field_at(p, 2) == a.pos
            && field_at(p, 6) == a.tqe,
        single_payload("vel"@, a) matches Some(p) && p.len() == 8 && field_at(p, 2) == i16::MIN
            && field_at(p, 4) == a.vel && field_at(p, 6) == a.tqe,
        single_payload("tqe"@, a) matches Some(p) && p.len() == 4 && field_at(p, 2) == a.tqe,
        single_payload("volt"@, a) matches Some(p) && p.len() == 7 && field_at(p, 5) == a.vol,
        single_payload("cur"@, a) matches Some(p) && p.len() == 7 && field_at(p, 5) == a.cur,
        single_payload("timed-read"@, a) matches Some(p) && p.len() == 5 && field_at(p, 3)
            == a.period_ms,
{
    lemma_mode_names();
    le_round_trip(a.pos);
    le_round_trip(a.vel);
    le_round_trip(a.tqe);
    le_round_trip(a.vol);
    le_round_trip(a.cur);
    le_round_trip(a.period_ms);
    le_round_trip(i16::MIN);
    assert((i16::MIN as u16) == 0x8000u16) by (bit_vector);
    assert(le_lo(i16::MIN) == 0x00u8 && le_hi(i16::MIN) == 0x80u8);
}

/// The frame payload that asks for a status reply.
pub fn read_request_bytes() -> (d: [u8; 8])
    ensures
        d@ == read_request(),
{
    let d = [0x17u8, 0x01, 0, 0, 0, 0, 0, 0];
    assert(d@ =~= read_request());
    d
}

} // verus!
