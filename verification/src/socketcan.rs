//! Linux SocketCAN: the raw frame layouts the kernel reads and writes, for classic
//! CAN and CAN-FD sockets, and the hints given with socket errors. Opening sockets
//! and the system calls are done by the application.
use vstd::prelude::*;
use crate::bus::{as_received, CanFrame, FrameView};
use crate::error::MotorError;
use crate::text::{dec_text, hex_text, push_dec, push_hex};

verus! {

/// Largest 11-bit identifier.
pub const CAN_SFF_MASK: u32 = 0x0000_07FF;

/// Largest 29-bit identifier.
pub const CAN_EFF_MASK: u32 = 0x1FFF_FFFF;

/// Bit of `can_id` marking a 29-bit identifier.
pub const CAN_EFF_FLAG: u32 = 0x8000_0000;

/// CAN-FD flag asking for a faster data phase.
pub const CANFD_BRS: u8 = 0x01;

/// A classic frame as `struct can_frame` holds it.
#[derive(Clone, Copy, Debug)]
pub struct RawCanFrame {
    pub can_id: u32,
    pub can_dlc: u8,
    pub data: [u8; 8],
}

/// A CAN-FD frame as `struct canfd_frame` holds it.
#[derive(Clone, Copy, Debug)]
pub struct RawCanFdFrame {
    pub can_id: u32,
    pub len: u8,
    pub flags: u8,
    pub data: [u8; 64],
}

/// A raw classic frame's content.
pub struct RawView {
    pub can_id: u32,
    pub can_dlc: u8,
    pub data: Seq<u8>,
}

impl View for RawCanFrame {
    type V = RawView;

    open spec fn view(&self) -> RawView {
        RawView { can_id: self.can_id, can_dlc: self.can_dlc, data: self.data@ }
    }
}

/// A raw CAN-FD frame's content.
pub struct RawFdView {
    pub can_id: u32,
    pub len: u8,
    pub flags: u8,
    pub data: Seq<u8>,
}

impl View for RawCanFdFrame {
    type V = RawFdView;

    open spec fn view(&self) -> RawFdView {
        RawFdView { can_id: self.can_id, len: self.len, flags: self.flags, data: self.data@ }
    }
}

/// What a classic socket writes for a frame with an 11-bit identifier: the
/// identifier and all eight data bytes.
pub open spec fn classic_raw(frame: FrameView) -> RawView {
    RawView { can_id: frame.arbitration_id, can_dlc: 8, data: frame.data }
}

/// The frame a classic socket's read stands for.
pub open spec fn classic_received(raw: RawView) -> FrameView {
    FrameView {
        arbitration_id: raw.can_id & CAN_SFF_MASK,
        data: raw.data,
        dlc: if raw.can_dlc <= 8 {
            raw.can_dlc
        } else {
            8u8
        },
        is_extended: false,
        is_rx: true,
    }
}

/// Whether a frame's identifier fits its width.
pub open spec fn id_fits(frame: FrameView) -> bool {
    if frame.is_extended {
        frame.arbitration_id <= CAN_EFF_MASK
    } else {
        frame.arbitration_id <= CAN_SFF_MASK
    }
}

/// What a CAN-FD socket writes for a frame whose identifier fits and that carries at
/// most eight bytes: 29-bit identifiers get the EFF flag, the data is zero-padded.
pub open spec fn fd_raw(frame: FrameView, enable_brs: bool) -> RawFdView {
    RawFdView {
        can_id: if frame.is_extended {
            frame.arbitration_id | CAN_EFF_FLAG
        } else {
            frame.arbitration_id
        },
        len: frame.dlc,
        flags: if enable_brs {
            CANFD_BRS
        } else {
            0u8
        },
        data: frame.data + Seq::new(56, |k: int| 0u8),
    }
}

/// The frame a CAN-FD socket's read stands for; `None` when it carries more than
/// eight bytes.
pub open spec fn fd_received(raw: RawFdView) -> Option<FrameView> {
    if raw.len > 8 {
        None
    } else {
        Some(
            FrameView {
                arbitration_id: raw_arbitration_id(raw.can_id),
                data: Seq::new(8, |k: int| if k < raw.len { raw.data[k] } else { 0u8 }),
                dlc: raw.len,
                is_extended: raw.can_id & CAN_EFF_FLAG != 0,
                is_rx: true,
            },
        )
    }
}

pub open spec fn std_id_text(id: u32) -> Seq<char> {
    "invalid arbitration_id "@ + hex_text(id as nat, 0) + ", expected 11-bit std id"@
}

pub open spec fn ext_id_text(id: u32) -> Seq<char> {
    "invalid arbitration_id "@ + hex_text(id as nat, 0) + ", expected 29-bit ext id"@
}

pub open spec fn fd_dlc_text(dlc: u8) -> Seq<char> {
    "invalid DLC "@ + dec_text(dlc as nat) + ", expected <= 8 for current frame model"@
}

pub open spec fn fd_len_text(len: u8) -> Seq<char> {
    "received CAN-FD payload length "@ + dec_text(len as nat)
        + " > 8 is not supported by current CanFrame"@
}

fn id_error(id: u32, ext: bool) -> (e: MotorError)
    ensures
        e matches MotorError::InvalidArgument(m) && m@ == (if ext {
            ext_id_text(id)
        } else {
            std_id_text(id)
        }),
{
    let mut m = String::from_str("invalid arbitration_id ");
    push_hex(&mut m, id as u64, 0);
    if ext {
        m.append(", expected 29-bit ext id");
    } else {
        m.append(", expected 11-bit std id");
    }
    MotorError::InvalidArgument(m)
}

/// The raw frame a classic socket writes for `frame`: only 11-bit identifiers are
/// accepted, and all eight data bytes are sent.
pub fn classic_raw_of(frame: CanFrame) -> (r: Result<RawCanFrame, MotorError>)
    ensures
        frame.arbitration_id > CAN_SFF_MASK ==> (r matches Err(MotorError::InvalidArgument(m))
            && m@ == std_id_text(frame.arbitration_id)),
        frame.arbitration_id <= CAN_SFF_MASK ==> (r matches Ok(raw) && raw@ == classic_raw(
            frame@,
        )),
{
    if frame.arbitration_id > 0x7FF {
        return Err(id_error(frame.arbitration_id, false));
    }
    Ok(RawCanFrame { can_id: frame.arbitration_id, can_dlc: 8, data: frame.data })
}

/// The received frame a classic socket read: the identifier keeps its low 11 bits.
pub fn classic_frame_of(raw: RawCanFrame) -> (f: CanFrame)
    ensures
        f@ == classic_received(raw@),
{
    CanFrame {
        arbitration_id: raw.can_id & 0x7FF,
        data: raw.data,
        dlc: if raw.can_dlc <= 8 {
            raw.can_dlc
        } else {
            8
        },
        is_extended: false,
        is_rx: true,
    }
}

/// The `poll` timeout for a wait of `ms` milliseconds: capped at `i32::MAX`.
pub fn poll_timeout_ms(ms: u128) -> (t: i32)
    ensures
        t == (if ms <= i32::MAX as u128 {
            ms as int
        } else {
            i32::MAX as int
        }),
{
    if ms <= i32::MAX as u128 {
        ms as i32
    } else {
        i32::MAX
    }
}

/// The raw frame a CAN-FD socket writes for `frame`: identifiers must fit their
/// width, at most eight bytes are carried, and 29-bit identifiers get the EFF flag.
pub fn fd_raw_of(frame: CanFrame, enable_brs: bool) -> (r: Result<RawCanFdFrame, MotorError>)
    ensures
        !frame.is_extended && frame.arbitration_id > CAN_SFF_MASK ==> (r matches Err(
            MotorError::InvalidArgument(m),
        ) && m@ == std_id_text(frame.arbitration_id)),
        frame.is_extended && frame.arbitration_id > CAN_EFF_MASK ==> (r matches Err(
            MotorError::InvalidArgument(m),
        ) && m@ == ext_id_text(frame.arbitration_id)),
        (if frame.is_extended {
            frame.arbitration_id <= CAN_EFF_MASK
        } else {
            frame.arbitration_id <= CAN_SFF_MASK
        }) && frame.dlc > 8 ==> (r matches Err(MotorError::InvalidArgument(m)) && m@
            == fd_dlc_text(frame.dlc)),
        (if frame.is_extended {
            frame.arbitration_id <= CAN_EFF_MASK
        } else {
            frame.arbitration_id <= CAN_SFF_MASK
        }) && frame.dlc <= 8 ==> (r matches Ok(raw) && raw@ == fd_raw(frame@, enable_brs)),
{
    if !frame.is_extended && frame.arbitration_id > 0x7FF {
        return Err(id_error(frame.arbitration_id, false));
    }
    if frame.is_extended && frame.arbitration_id > 0x1FFF_FFFF {
        return Err(id_error(frame.arbitration_id, true));
    }
    if frame.dlc > 8 {
        let mut m = String::from_str("invalid DLC ");
        push_dec(&mut m, frame.dlc as u64);
        m.append(", expected <= 8 for current frame model");
        return Err(MotorError::InvalidArgument(m));
    }
    let mut data = [0u8; 64];
    let mut k: usize = 0;
    while k < 8
        invariant
            k <= 8,
            forall|j: int| 0 <= j < k ==> data@[j] == frame.data@[j],
            forall|j: int| k <= j < 64 ==> data@[j] == 0u8,
        decreases 8 - k,
    {
        data[k] = frame.data[k];
        k = k + 1;
    }
    assert(data@ =~= frame.data@ + Seq::new(56, |k: int| 0u8));
    Ok(
        RawCanFdFrame {
            can_id: if frame.is_extended {
                frame.arbitration_id | 0x8000_0000
            } else {
                frame.arbitration_id
            },
            len: frame.dlc,
            flags: if enable_brs {
                CANFD_BRS
            } else {
                0
            },
            data,
        },
    )
}

/// The identifier a raw `can_id` carries, by its EFF flag.
pub open spec fn raw_arbitration_id(can_id: u32) -> u32 {
    if can_id & CAN_EFF_FLAG != 0 {
        can_id & CAN_EFF_MASK
    } else {
        can_id & CAN_SFF_MASK
    }
}

fn arbitration_of(can_id: u32) -> (r: u32)
    ensures
        r == raw_arbitration_id(can_id),
{
    if (can_id & 0x8000_0000) != 0 {
        can_id & 0x1FFF_FFFF
    } else {
        can_id & 0x7FF
    }
}

/// The received frame a CAN-FD socket read as a classic frame (a 16-byte read).
pub fn fd_socket_classic_frame_of(raw: RawCanFrame) -> (f: CanFrame)
    ensures
        f.arbitration_id == raw_arbitration_id(raw.can_id),
        f.data@ == raw.data@,
        f.dlc == (if raw.can_dlc <= 8 {
            raw.can_dlc
        } else {
            8u8
        }),
        f.is_extended == (raw.can_id & CAN_EFF_FLAG != 0),
        f.is_rx,
{
    CanFrame {
        arbitration_id: arbitration_of(raw.can_id),
        data: raw.data,
        dlc: if raw.can_dlc <= 8 {
            raw.can_dlc
        } else {
            8
        },
        is_extended: (raw.can_id & 0x8000_0000) != 0,
        is_rx: true,
    }
}

/// The received frame a CAN-FD socket read as a CAN-FD frame (a 72-byte read):
/// payloads longer than a classic frame are refused; the first `len` bytes are kept.
pub fn fd_frame_of(raw: &RawCanFdFrame) -> (r: Result<CanFrame, MotorError>)
    ensures
        raw.len > 8 ==> (r matches Err(MotorError::Unsupported(m)) && m@ == fd_len_text(raw.len)),
        raw.len <= 8 ==> (r matches Ok(f) && fd_received(raw@) == Some(f@)),
{
    if raw.len > 8 {
        let mut m = String::from_str("received CAN-FD payload length ");
        push_dec(&mut m, raw.len as u64);
        m.append(" > 8 is not supported by current CanFrame");
        return Err(MotorError::Unsupported(m));
    }
    let mut data = [0u8; 8];
    let dlc = raw.len;
    let mut k: usize = 0;
    while k < dlc as usize
        invariant
            dlc <= 8,
            k <= dlc,
            forall|j: int| 0 <= j < k ==> data@[j] == raw.data@[j],
            forall|j: int| k <= j < 8 ==> data@[j] == 0u8,
        decreases dlc - k,
    {
        data[k] = raw.data[k];
        k = k + 1;
    }
    assert(data@ =~= Seq::new(8, |k: int| if k < raw.len { raw.data@[k] } else { 0u8 }));
    Ok(
        CanFrame {
            arbitration_id: arbitration_of(raw.can_id),
            data,
            dlc,
            is_extended: (raw.can_id & 0x8000_0000) != 0,
            is_rx: true,
        },
    )
}

/// The hint added to a CAN-FD socket error, by the error's OS code.
pub open spec fn hint_text(raw_os_error: Option<i32>, iface: Seq<char>) -> Seq<char> {
    match raw_os_error {
        Some(100) => " (hint: can interface is down; run `ip -details link show "@ + iface
            + "` then bring it up)"@,
        Some(6) => " (hint: can device/address is unavailable; check USB-CAN adapter and `ip link show`)"@,
        Some(19) => " (hint: interface not found; verify channel name like "@ + iface
            + " and adapter connection)"@,
        Some(22) => " (hint: invalid argument; interface may not be in CAN-FD mode, run canfd_restart)"@,
        _ => Seq::empty(),
    }
}

pub fn socketcanfd_hint(raw_os_error: Option<i32>, iface: &str) -> (s: String)
    ensures
        s@ == hint_text(raw_os_error, iface@),
{
    match raw_os_error {
        Some(100) => {
            let mut s = String::from_str(" (hint: can interface is down; run `ip -details link show ");
            s.append(iface);
            s.append("` then bring it up)");
            s
        },
        Some(6) => String::from_str(
            " (hint: can device/address is unavailable; check USB-CAN adapter and `ip link show`)",
        ),
        Some(19) => {
            let mut s = String::from_str(" (hint: interface not found; verify channel name like ");
            s.append(iface);
            s.append(" and adapter connection)");
            s
        },
        Some(22) => String::from_str(
            " (hint: invalid argument; interface may not be in CAN-FD mode, run canfd_restart)",
        ),
        _ => String::new(),
    }
}

/// A frame written to a classic socket and read back is the same frame, now
/// received: for a standard frame with an 11-bit identifier and eight data bytes.
pub proof fn classic_round_trip(frame: FrameView)
    requires
        !frame.is_extended,
        frame.arbitration_id <= CAN_SFF_MASK,
        frame.dlc == 8,
    ensures
        classic_received(classic_raw(frame)) == as_received(frame),
{
    let id = frame.arbitration_id;
    assert(id & 0x7FF == id) by (bit_vector)
        requires
            id <= 0x7FF,
    ;
}

/// A frame written to a CAN-FD socket and read back is the same frame, now received:
/// for an identifier that fits its width, at most eight data bytes, and zeros past
/// the data length.
pub proof fn fd_round_trip(frame: FrameView, enable_brs: bool)
    requires
        id_fits(frame),
        frame.dlc <= 8,
        frame.data.len() == 8,
        forall|k: int| frame.dlc <= k < 8 ==> frame.data[k] == 0u8,
    ensures
        fd_received(fd_raw(frame, enable_brs)) == Some(as_received(frame)),
{
    let id = frame.arbitration_id;
    let raw = fd_raw(frame, enable_brs);
    if frame.is_extended {
        assert((id | 0x8000_0000) & 0x8000_0000 != 0) by (bit_vector);
        assert((id | 0x8000_0000) & 0x1FFF_FFFF == id) by (bit_vector)
            requires
                id <= 0x1FFF_FFFF,
        ;
    } else {
        assert(id & 0x8000_0000 == 0 && id & 0x7FF == id) by (bit_vector)
            requires
                id <= 0x7FF,
        ;
    }
    let got = fd_received(raw).unwrap();
    assert(got.data =~= frame.data);
}

} // verus!
