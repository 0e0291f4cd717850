//! The gateway's vocabulary: motor vendors, bus transports, and the default target
//! and settings a gateway session starts from.
use vstd::prelude::*;
use crate::text::{chars_eq, chars_of, str_to_lowercase, unicode_lower};

verus! {

/// The motor vendors the gateway drives.
#[derive(Clone, Copy, Debug, PartialEq, Eq, Structural)]
pub enum Vendor {
    Damiao,
    Hexfellow,
    Hightorque,
    Myactuator,
    Robstride,
}

/// The name each vendor goes by.
pub open spec fn vendor_text(v: Vendor) -> Seq<char> {
    match v {
        Vendor::Damiao => "damiao"@,
        Vendor::Hexfellow => "hexfellow"@,
        Vendor::Hightorque => "hightorque"@,
        Vendor::Myactuator => "myactuator"@,
        Vendor::Robstride => "robstride"@,
    }
}

/// The vendor a (lower-case) name stands for.
pub open spec fn vendor_named(name: Seq<char>) -> Option<Vendor> {
    if name == "damiao"@ {
        Some(Vendor::Damiao)
    } else if name == "hexfellow"@ {
        Some(Vendor::Hexfellow)
    } else if name == "hightorque"@ {
        Some(Vendor::Hightorque)
    } else if name == "myactuator"@ {
        Some(Vendor::Myactuator)
    } else if name == "robstride"@ {
        Some(Vendor::Robstride)
    } else {
        None
    }
}

pub open spec fn unsupported_vendor_text(s: Seq<char>) -> Seq<char> {
    "unsupported vendor: "@ + s
}

/// The vendor whose name is exactly `name`.
pub fn vendor_of_name(name: &[char]) -> (r: Option<Vendor>)
    ensures
        r == vendor_named(name@),
{
    if chars_eq(name, chars_of("damiao").as_slice()) {
        Some(Vendor::Damiao)
    } else if chars_eq(name, chars_of("hexfellow").as_slice()) {
        Some(Vendor::Hexfellow)
    } else if chars_eq(name, chars_of("hightorque").as_slice()) {
        Some(Vendor::Hightorque)
    } else if chars_eq(name, chars_of("myactuator").as_slice()) {
        Some(Vendor::Myactuator)
    } else if chars_eq(name, chars_of("robstride").as_slice()) {
        Some(Vendor::Robstride)
    } else {
        None
    }
}

impl Vendor {
    /// The vendor named `s`, in any case.
    pub fn from_str(s: &str) -> (r: Result<Vendor, String>)
        ensures
            match vendor_named(unicode_lower(s@)) {
                Some(v) => r == Ok::<Vendor, String>(v),
                None => r matches Err(m) && m@ == unsupported_vendor_text(s@),
            },
    {
        let lowered = str_to_lowercase(s);
        let name = chars_of(lowered.as_str());
        match vendor_of_name(name.as_slice()) {
            Some(v) => Ok(v),
            None => {
                let mut m = String::from_str("unsupported vendor: ");
                m.append(s);
                Err(m)
            },
        }
    }

    pub fn as_str(self) -> (r: &'static str)
        ensures
            r@ == vendor_text(self),
    {
        match self {
            Vendor::Damiao => "damiao",
            Vendor::Hexfellow => "hexfellow",
            Vendor::Hightorque => "hightorque",
            Vendor::Myactuator => "myactuator",
            Vendor::Robstride => "robstride",
        }
    }
}

/// How the gateway reaches the bus.
#[derive(Clone, Copy, Debug, PartialEq, Eq, Structural)]
pub enum Transport {
    Auto,
    SocketCan,
    SocketCanFd,
    DmSerial,
}

pub open spec fn transport_text(t: Transport) -> Seq<char> {
    match t {
        Transport::Auto => "auto"@,
        Transport::SocketCan => "socketcan"@,
        Transport::SocketCanFd => "socketcanfd"@,
        Transport::DmSerial => "dm-serial"@,
    }
}

pub open spec fn transport_named(name: Seq<char>) -> Option<Transport> {
    if name == "auto"@ {
        Some(Transport::Auto)
    } else if name == "socketcan"@ {
        Some(Transport::SocketCan)
    } else if name == "socketcanfd"@ {
        Some(Transport::SocketCanFd)
    } else if name == "dm-serial"@ {
        Some(Transport::DmSerial)
    } else {
        None
    }
}

/// Every vendor's name reads back as that vendor, and every transport's as that
/// transport.
pub proof fn names_read_back(v: Vendor, t: Transport)
    ensures
        vendor_named(vendor_text(v)) == Some(v),
        transport_named(transport_text(t)) == Some(t),
{
    reveal_strlit("damiao");
    reveal_strlit("hexfellow");
    reveal_strlit("hightorque");
    reveal_strlit("myactuator");
    reveal_strlit("robstride");
    reveal_strlit("auto");
    reveal_strlit("socketcan");
    reveal_strlit("socketcanfd");
    reveal_strlit("dm-serial");
    assert("damiao"@.len() == 6 && "hexfellow"@.len() == 9 && "hightorque"@.len() == 10);
    assert("myactuator"@.len() == 10 && "robstride"@.len() == 9);
    assert("hexfellow"@[0] != "robstride"@[0] && "hightorque"@[0] != "myactuator"@[0]);
    assert("auto"@.len() == 4 && "socketcan"@.len() == 9 && "socketcanfd"@.len() == 11);
    assert("dm-serial"@.len() == 9 && "dm-serial"@[0] != "socketcan"@[0]);
}

pub open spec fn unsupported_transport_text(s: Seq<char>) -> Seq<char> {
    "unsupported transport: "@ + s
}

pub fn transport_of_name(name: &[char]) -> (r: Option<Transport>)
    ensures
        r == transport_named(name@),
{
    if chars_eq(name, chars_of("auto").as_slice()) {
        Some(Transport::Auto)
    } else if chars_eq(name, chars_of("socketcan").as_slice()) {
        Some(Transport::SocketCan)
    } else if chars_eq(name, chars_of("socketcanfd").as_slice()) {
        Some(Transport::SocketCanFd)
    } else if chars_eq(name, chars_of("dm-serial").as_slice()) {
        Some(Transport::DmSerial)
    } else {
        None
    }
}

impl Transport {
    /// The transport named `s`, in any case.
    pub fn from_str(s: &str) -> (r: Result<Transport, String>)
        ensures
            match transport_named(unicode_lower(s@)) {
                Some(t) => r == Ok::<Transport, String>(t),
                None => r matches Err(m) && m@ == unsupported_transport_text(s@),
            },
    {
        let lowered = str_to_lowercase(s);
        let name = chars_of(lowered.as_str());
        match transport_of_name(name.as_slice()) {
            Some(t) => Ok(t),
            None => {
                let mut m = String::from_str("unsupported transport: ");
                m.append(s);
                Err(m)
            },
        }
    }

    pub fn as_str(self) -> (r: &'static str)
        ensures
            r@ == transport_text(self),
    {
        match self {
            Transport::Auto => "auto",
            Transport::SocketCan => "socketcan",
            Transport::SocketCanFd => "socketcanfd",
            Transport::DmSerial => "dm-serial",
        }
    }
}

/// The motor a gateway session talks to when a message names no other.
#[derive(Clone, Debug)]
pub struct Target {
    pub vendor: Vendor,
    pub transport: Transport,
    pub channel: String,
    pub serial_port: String,
    pub serial_baud: u32,
    pub model: String,
    pub motor_id: u16,
    pub feedback_id: u16,
}

/// The gateway's settings: where it listens, its default target and its tick period.
#[derive(Clone, Debug)]
pub struct ServerConfig {
    pub bind: String,
    pub target: Target,
    pub dt_ms: u64,
}

/// The feedback id a MyActuator motor answers on: `0x240 + motor_id`, saturating.
pub open spec fn myactuator_feedback(motor_id: u16) -> u16 {
    if 0x240 + motor_id > u16::MAX {
        u16::MAX
    } else {
        (0x240 + motor_id) as u16
    }
}

pub fn myactuator_feedback_default(motor_id: u16) -> (r: u16)
    ensures
        r == myactuator_feedback(motor_id),
{
    0x240u16.saturating_add(motor_id)
}

} // verus!
