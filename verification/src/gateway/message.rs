//! The fields the gateway reads from a request message, and the scan plans and modes
//! it derives from them.
//!
//! A message arrives as JSON; `MsgValue` holds what the gateway reads of it: numbers
//! keep the unsigned integer they stand for (if any) and their JSON text.
use vstd::prelude::*;
use crate::gateway::args::{csv_ids, hex_or_dec, parse_hex_or_dec, parse_id_list_csv};
use crate::gateway::model::{
    transport_named, unsupported_transport_text, unsupported_vendor_text, vendor_named,
    Transport, Vendor,
};
use crate::modes::{damiao_mode_numbered, robstride_mode_numbered, DamiaoMode, RobstrideMode};
use crate::text::{
    chars_eq, chars_of, dec_text, push_dec, str_to_lowercase, unicode_lower,
};

verus! {

/// A JSON value as the gateway reads it.
#[derive(Debug)]
pub enum MsgValue {
    Null,
    Bool(bool),
    /// A number: the unsigned integer it stands for, when it is one, and its JSON text.
    Number { uint: Option<u64>, text: String },
    Str(String),
    Array(Vec<MsgValue>),
    /// An object's members; keys are distinct.
    Object(Vec<(String, MsgValue)>),
}

/// The value of the first member named `key`.
pub open spec fn lookup(members: Seq<(String, MsgValue)>, key: Seq<char>) -> Option<MsgValue>
    decreases members.len(),
{
    if members.len() == 0 {
        None
    } else if members[0].0@ == key {
        Some(members[0].1)
    } else {
        lookup(members.drop_first(), key)
    }
}

/// The field `key` of an object; other values have no fields (`Value::get`).
pub open spec fn field(v: MsgValue, key: Seq<char>) -> Option<MsgValue> {
    match v {
        MsgValue::Object(members) => lookup(members@, key),
        _ => None,
    }
}

/// The text of a string field.
pub open spec fn str_field(v: MsgValue, key: Seq<char>) -> Option<Seq<char>> {
    match field(v, key) {
        Some(MsgValue::Str(s)) => Some(s@),
        _ => None,
    }
}

/// The unsigned integer of a number field.
pub open spec fn uint_field(v: MsgValue, key: Seq<char>) -> Option<u64> {
    match field(v, key) {
        Some(MsgValue::Number { uint, .. }) => uint,
        _ => None,
    }
}

fn lookup_in<'a>(members: &'a Vec<(String, MsgValue)>, key: &str) -> (r: Option<&'a MsgValue>)
    ensures
        match lookup(members@, key@) {
            Some(x) => r matches Some(y) && *y == x,
            None => r is None,
        },
{
    let kv = chars_of(key);
    let mut i: usize = 0;
    assert(members@.subrange(0, members@.len() as int) =~= members@);
    while i < members.len()
        invariant
            i <= members@.len(),
            kv@ == key@,
            lookup(members@, key@) == lookup(members@.subrange(i as int, members@.len() as int), key@),
        decreases members@.len() - i,
    {
        let ghost rest = members@.subrange(i as int, members@.len() as int);
        assert(rest[0] == members@[i as int]);
        assert(rest.drop_first() =~= members@.subrange(i + 1, members@.len() as int));
        let name = chars_of(members[i].0.as_str());
        if chars_eq(name.as_slice(), kv.as_slice()) {
            return Some(&members[i].1);
        }
        i = i + 1;
    }
    None
}

impl MsgValue {
    /// The field `key`, when this is an object that has it.
    pub fn get(&self, key: &str) -> (r: Option<&MsgValue>)
        ensures
            match field(*self, key@) {
                Some(x) => r matches Some(y) && *y == x,
                None => r is None,
            },
    {
        match self {
            MsgValue::Object(members) => lookup_in(members, key),
            _ => None,
        }
    }

    /// The text, when this is a string.
    pub fn as_str(&self) -> (r: Option<&String>)
        ensures
            match *self {
                MsgValue::Str(s) => r matches Some(t) && t@ == s@,
                _ => r is None,
            },
    {
        match self {
            MsgValue::Str(s) => Some(s),
            _ => None,
        }
    }

    /// The unsigned integer, when this is a number that is one.
    pub fn as_u64(&self) -> (r: Option<u64>)
        ensures
            r == (match *self {
                MsgValue::Number { uint, .. } => uint,
                _ => None,
            }),
    {
        match self {
            MsgValue::Number { uint, .. } => *uint,
            _ => None,
        }
    }
}

/// A boolean field, or `default` when it is missing or not a boolean.
pub fn as_bool(v: &MsgValue, key: &str, default: bool) -> (r: bool)
    ensures
        r == (match field(*v, key@) {
            Some(MsgValue::Bool(b)) => b,
            _ => default,
        }),
{
    match v.get(key) {
        Some(MsgValue::Bool(b)) => *b,
        _ => default,
    }
}

/// An unsigned integer field, or `default`.
pub fn as_u64(v: &MsgValue, key: &str, default: u64) -> (r: u64)
    ensures
        r == (match uint_field(*v, key@) {
            Some(n) => n,
            None => default,
        }),
{
    match v.get(key) {
        Some(x) => match x.as_u64() {
            Some(n) => n,
            None => default,
        },
        None => default,
    }
}

/// A `u16` field: a number's low 16 bits, or a string in decimal or `0x` hex;
/// `default` when missing or unreadable.
pub open spec fn u16_field(v: MsgValue, key: Seq<char>, default: u16) -> u16 {
    match field(v, key) {
        Some(MsgValue::Number { uint, .. }) => match uint {
            Some(n) => n as u16,
            None => default,
        },
        Some(MsgValue::Str(s)) => match hex_or_dec(s@, u16::MAX as int) {
            Ok(n) => n as u16,
            Err(_) => default,
        },
        _ => default,
    }
}

pub fn as_u16(v: &MsgValue, key: &str, default: u16) -> (r: u16)
    ensures
        r == u16_field(*v, key@, default),
{
    match v.get(key) {
        Some(MsgValue::Number { uint, .. }) => match uint {
            Some(n) => *n as u16,
            None => default,
        },
        Some(MsgValue::Str(s)) => match parse_hex_or_dec(s.as_str()) {
            Ok(n) => n,
            Err(_) => default,
        },
        _ => default,
    }
}

/// The vendor a message names in `vendor`, or `default` when it names none.
pub fn parse_vendor_in_msg(v: &MsgValue, default: Vendor) -> (r: Result<Vendor, String>)
    ensures
        match str_field(*v, "vendor"@) {
            None => r == Ok::<Vendor, String>(default),
            Some(s) => match vendor_named(unicode_lower(s)) {
                Some(x) => r == Ok::<Vendor, String>(x),
                None => r matches Err(m) && m@ == unsupported_vendor_text(s),
            },
        },
{
    match v.get("vendor") {
        Some(x) => match x.as_str() {
            Some(s) => Vendor::from_str(s.as_str()),
            None => Ok(default),
        },
        None => Ok(default),
    }
}

/// The transport a message names in `transport`, or `default` when it names none.
pub fn parse_transport_in_msg(v: &MsgValue, default: Transport) -> (r: Result<Transport, String>)
    ensures
        match str_field(*v, "transport"@) {
            None => r == Ok::<Transport, String>(default),
            Some(s) => match transport_named(unicode_lower(s)) {
                Some(x) => r == Ok::<Transport, String>(x),
                None => r matches Err(m) && m@ == unsupported_transport_text(s),
            },
        },
{
    match v.get("transport") {
        Some(x) => match x.as_str() {
            Some(s) => Transport::from_str(s.as_str()),
            None => Ok(default),
        },
        None => Ok(default),
    }
}

/// The Damiao mode a (lower-case) name stands for.
pub open spec fn damiao_mode_named(s: Seq<char>) -> Option<DamiaoMode> {
    if s == "mit"@ {
        Some(DamiaoMode::Mit)
    } else if s == "pos_vel"@ || s == "pos-vel"@ || s == "posvel"@ {
        Some(DamiaoMode::PosVel)
    } else if s == "vel"@ {
        Some(DamiaoMode::Vel)
    } else if s == "force_pos"@ || s == "force-pos"@ || s == "forcepos"@ {
        Some(DamiaoMode::ForcePos)
    } else {
        None
    }
}

/// The mode the C interface numbers `n` is the one the gateway calls by the name the
/// C interface's refusal text gives to `n`, in lower case: Damiao `mit`, `pos_vel`,
/// `vel`, `force_pos`; RobStride `mit`, `position`, `velocity`.
pub proof fn mode_numbers_agree_with_names(n: int)
    ensures
        1 <= n <= 4 ==> damiao_mode_numbered(n) == damiao_mode_named(
            seq!["mit"@, "pos_vel"@, "vel"@, "force_pos"@][n - 1],
        ),
        1 <= n <= 3 ==> robstride_mode_numbered(n) == robstride_mode_named(
            seq!["mit"@, "position"@, "velocity"@][n - 1],
        ),
{
    reveal_strlit("mit");
    reveal_strlit("pos_vel");
    reveal_strlit("pos-vel");
    reveal_strlit("posvel");
    reveal_strlit("vel");
    reveal_strlit("force_pos");
    reveal_strlit("force-pos");
    reveal_strlit("forcepos");
    reveal_strlit("position");
    reveal_strlit("pos");
    reveal_strlit("velocity");
    assert("pos_vel"@[0] == 'p' && "vel"@[0] == 'v' && "force_pos"@[0] == 'f' && "mit"@[0] == 'm');
    assert("pos_vel"@[3] == '_' && "pos-vel"@[3] == '-' && "posvel"@[3] == 'v');
    assert("position"@[0] == 'p' && "velocity"@[0] == 'v' && "pos"@[0] == 'p');
}

/// The Damiao mode a message asks for in `mode`: a name in any case, or 1 to 4.
pub open spec fn damiao_mode_of(v: MsgValue) -> Result<DamiaoMode, Seq<char>> {
    match str_field(v, "mode"@) {
        Some(s) => match damiao_mode_named(unicode_lower(s)) {
            Some(m) => Ok(m),
            None => Err("unsupported mode string: "@ + s),
        },
        None => match uint_field(v, "mode"@) {
            Some(n) => if n == 1 {
                Ok(DamiaoMode::Mit)
            } else if n == 2 {
                Ok(DamiaoMode::PosVel)
            } else if n == 3 {
                Ok(DamiaoMode::Vel)
            } else if n == 4 {
                Ok(DamiaoMode::ForcePos)
            } else {
                Err("unsupported mode value: "@ + dec_text(n as nat))
            },
            None => Err("missing mode (string or numeric)"@),
        },
    }
}

fn is_one_of(s: &[char], a: &str, b: &str, c: &str) -> (r: bool)
    ensures
        r == (s@ == a@ || s@ == b@ || s@ == c@),
{
    chars_eq(s, chars_of(a).as_slice()) || chars_eq(s, chars_of(b).as_slice()) || chars_eq(
        s,
        chars_of(c).as_slice(),
    )
}

pub fn parse_damiao_mode(v: &MsgValue) -> (r: Result<DamiaoMode, String>)
    ensures
        match damiao_mode_of(*v) {
            Ok(m) => r == Ok::<DamiaoMode, String>(m),
            Err(t) => r matches Err(e) && e@ == t,
        },
{
    let mode = v.get("mode");
    if let Some(MsgValue::Str(s)) = mode {
        let lowered = str_to_lowercase(s.as_str());
        let l = chars_of(lowered.as_str());
        let l = l.as_slice();
        if is_one_of(l, "mit", "mit", "mit") {
            return Ok(DamiaoMode::Mit);
        } else if is_one_of(l, "pos_vel", "pos-vel", "posvel") {
            return Ok(DamiaoMode::PosVel);
        } else if is_one_of(l, "vel", "vel", "vel") {
            return Ok(DamiaoMode::Vel);
        } else if is_one_of(l, "force_pos", "force-pos", "forcepos") {
            return Ok(DamiaoMode::ForcePos);
        }
        let mut m = String::from_str("unsupported mode string: ");
        m.append(s.as_str());
        return Err(m);
    }
    if let Some(MsgValue::Number { uint: Some(n), .. }) = mode {
        return match *n {
            1 => Ok(DamiaoMode::Mit),
            2 => Ok(DamiaoMode::PosVel),
            3 => Ok(DamiaoMode::Vel),
            4 => Ok(DamiaoMode::ForcePos),
            _ => {
                let mut m = String::from_str("unsupported mode value: ");
                push_dec(&mut m, *n);
                Err(m)
            },
        };
    }
    Err(String::from_str("missing mode (string or numeric)"))
}

/// The RobStride mode a (lower-case) name stands for.
pub open spec fn robstride_mode_named(s: Seq<char>) -> Option<RobstrideMode> {
    if s == "mit"@ {
        Some(RobstrideMode::Mit)
    } else if s == "position"@ || s == "pos"@ {
        Some(RobstrideMode::Position)
    } else if s == "vel"@ || s == "velocity"@ {
        Some(RobstrideMode::Velocity)
    } else {
        None
    }
}

/// The RobStride mode a message asks for in `mode`: a name in any case, or 0 to 2.
pub open spec fn robstride_mode_of(v: MsgValue) -> Result<RobstrideMode, Seq<char>> {
    match str_field(v, "mode"@) {
        Some(s) => match robstride_mode_named(unicode_lower(s)) {
            Some(m) => Ok(m),
            None => Err("unsupported robstride mode string: "@ + s),
        },
        None => match uint_field(v, "mode"@) {
            Some(n) => if n == 0 {
                Ok(RobstrideMode::Mit)
            } else if n == 1 {
                Ok(RobstrideMode::Position)
            } else if n == 2 {
                Ok(RobstrideMode::Velocity)
            } else {
                Err("unsupported robstride mode value: "@ + dec_text(n as nat))
            },
            None => Err("missing mode (string or numeric)"@),
        },
    }
}

pub fn parse_robstride_mode(v: &MsgValue) -> (r: Result<RobstrideMode, String>)
    ensures
        match robstride_mode_of(*v) {
            Ok(m) => r == Ok::<RobstrideMode, String>(m),
            Err(t) => r matches Err(e) && e@ == t,
        },
{
    let mode = v.get("mode");
    if let Some(MsgValue::Str(s)) = mode {
        let lowered = str_to_lowercase(s.as_str());
        let l = chars_of(lowered.as_str());
        let l = l.as_slice();
        if is_one_of(l, "mit", "mit", "mit") {
            return Ok(RobstrideMode::Mit);
        } else if is_one_of(l, "position", "pos", "pos") {
            return Ok(RobstrideMode::Position);
        } else if is_one_of(l, "vel", "velocity", "vel") {
            return Ok(RobstrideMode::Velocity);
        }
        let mut m = String::from_str("unsupported robstride mode string: ");
        m.append(s.as_str());
        return Err(m);
    }
    if let Some(MsgValue::Number { uint: Some(n), .. }) = mode {
        return match *n {
            0 => Ok(RobstrideMode::Mit),
            1 => Ok(RobstrideMode::Position),
            2 => Ok(RobstrideMode::Velocity),
            _ => {
                let mut m = String::from_str("unsupported robstride mode value: ");
                push_dec(&mut m, *n);
                Err(m)
            },
        };
    }
    Err(String::from_str("missing mode (string or numeric)"))
}

/// The parameter type a message names in `type` (lower-cased), `f32` by default.
pub fn parse_param_type(v: &MsgValue) -> (r: String)
    ensures
        r@ == unicode_lower(
            match str_field(*v, "type"@) {
                Some(s) => s,
                None => "f32"@,
            },
        ),
{
    match v.get("type") {
        Some(MsgValue::Str(s)) => str_to_lowercase(s.as_str()),
        _ => str_to_lowercase("f32"),
    }
}

/// The text of a parameter value: a string as it is, a number as written, a
/// boolean as `1`/`0`, anything else as the empty text; `None` when there is no `value`.
pub open spec fn param_value_text(v: MsgValue) -> Option<Seq<char>> {
    match field(v, "value"@) {
        None => None,
        Some(MsgValue::Str(s)) => Some(s@),
        Some(MsgValue::Number { text, .. }) => Some(text@),
        Some(MsgValue::Bool(b)) => Some(
            if b {
                "1"@
            } else {
                "0"@
            },
        ),
        Some(_) => Some(Seq::empty()),
    }
}

pub fn parse_param_value(v: &MsgValue) -> (r: Option<String>)
    ensures
        match param_value_text(*v) {
            Some(t) => r matches Some(s) && s@ == t,
            None => r is None,
        },
{
    match v.get("value") {
        None => None,
        Some(MsgValue::Str(s)) => Some(s.clone()),
        Some(MsgValue::Number { text, .. }) => Some(text.clone()),
        Some(MsgValue::Bool(b)) => Some(
            if *b {
                String::from_str("1")
            } else {
                String::from_str("0")
            },
        ),
        Some(_) => Some(String::new()),
    }
}

/// The id an array element gives: a number's low 16 bits, or a readable id string.
pub open spec fn element_id(x: MsgValue) -> Option<u16> {
    match x {
        MsgValue::Number { uint: Some(n), .. } => Some(n as u16),
        MsgValue::Str(s) => match hex_or_dec(s@, u16::MAX as int) {
            Ok(n) => Some(n as u16),
            Err(_) => None,
        },
        _ => None,
    }
}

/// The ids an array gives, in order, skipping the elements that give none.
pub open spec fn array_ids(xs: Seq<MsgValue>) -> Seq<u16>
    decreases xs.len(),
{
    if xs.len() == 0 {
        Seq::empty()
    } else {
        match element_id(xs.last()) {
            Some(id) => array_ids(xs.drop_last()).push(id),
            None => array_ids(xs.drop_last()),
        }
    }
}

/// The feedback ids a RobStride scan tries: those the message lists in
/// `feedback_ids` (an array or a comma-separated string), or, when it lists none,
/// the default feedback id, `0xFF`, `0xFE` and `0x00`.
pub open spec fn scan_feedback_ids(v: MsgValue, base_feedback_id: u16) -> Seq<u16> {
    let listed = match field(v, "feedback_ids"@) {
        Some(MsgValue::Array(xs)) => array_ids(xs@),
        Some(MsgValue::Str(s)) => csv_ids(s@),
        _ => Seq::empty(),
    };
    if listed.len() == 0 {
        seq![base_feedback_id, 0xFFu16, 0xFEu16, 0x00u16]
    } else {
        listed
    }
}

fn element_id_of(x: &MsgValue) -> (r: Option<u16>)
    ensures
        r == element_id(*x),
{
    match x {
        MsgValue::Number { uint: Some(n), .. } => Some(*n as u16),
        MsgValue::Str(s) => match parse_hex_or_dec(s.as_str()) {
            Ok(n) => Some(n),
            Err(_) => None,
        },
        _ => None,
    }
}

pub fn robstride_scan_feedback_ids(v: &MsgValue, base_feedback_id: u16) -> (r: Vec<u16>)
    ensures
        r@ == scan_feedback_ids(*v, base_feedback_id),
{
    let listed: Vec<u16> = match v.get("feedback_ids") {
        Some(MsgValue::Array(xs)) => {
            let mut out: Vec<u16> = Vec::new();
            let mut i: usize = 0;
            while i < xs.len()
                invariant
                    i <= xs@.len(),
                    out@ == array_ids(xs@.subrange(0, i as int)),
                decreases xs@.len() - i,
            {
                assert(xs@.subrange(0, i + 1).drop_last() =~= xs@.subrange(0, i as int));
                if let Some(id) = element_id_of(&xs[i]) {
                    out.push(id);
                }
                i = i + 1;
            }
            assert(xs@.subrange(0, xs@.len() as int) =~= xs@);
            out
        },
        Some(MsgValue::Str(s)) => parse_id_list_csv(s.as_str()),
        _ => Vec::new(),
    };
    if listed.len() == 0 {
        let mut d: Vec<u16> = Vec::new();
        d.push(base_feedback_id);
        d.push(0xFF);
        d.push(0xFE);
        d.push(0x00);
        assert(d@ =~= seq![base_feedback_id, 0xFFu16, 0xFEu16, 0x00u16]);
        d
    } else {
        listed
    }
}

} // verus!
