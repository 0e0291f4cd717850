//! CAN frames and the bus interface that controllers drive.
use vstd::prelude::*;
use crate::error::MotorError;

verus! {

/// One classic CAN frame as the library sees it: an 11- or 29-bit identifier,
/// up to eight data bytes (`dlc` of them meaningful), and whether it was received.
#[derive(Clone, Copy, Debug)]
pub struct CanFrame {
    pub arbitration_id: u32,
    pub data: [u8; 8],
    pub dlc: u8,
    pub is_extended: bool,
    pub is_rx: bool,
}

/// A frame's content with its data bytes as a sequence.
pub struct FrameView {
    pub arbitration_id: u32,
    pub data: Seq<u8>,
    pub dlc: u8,
    pub is_extended: bool,
    pub is_rx: bool,
}

impl View for CanFrame {
    type V = FrameView;

    open spec fn view(&self) -> FrameView {
        FrameView {
            arbitration_id: self.arbitration_id,
            data: self.data@,
            dlc: self.dlc,
            is_extended: self.is_extended,
            is_rx: self.is_rx,
        }
    }
}

/// The same frame as it looks once received.
pub open spec fn as_received(f: FrameView) -> FrameView {
    FrameView {
        arbitration_id: f.arbitration_id,
        data: f.data,
        dlc: f.dlc,
        is_extended: f.is_extended,
        is_rx: true,
    }
}

/// One call made on a bus, with what the bus returned.
pub enum BusCall {
    /// `send` of this frame.
    Send(FrameView, Result<(), MotorError>),
    /// `recv` with this timeout in milliseconds.
    Recv(u64, Result<Option<CanFrame>, MotorError>),
    /// `shutdown`.
    Shutdown(Result<(), MotorError>),
}

/// A CAN bus: frames go out with `send` and come in with `recv`.
///
/// Implementations live with the hardware access (sockets, vendor drivers) or in tests.
/// The record functions below are the model each implementation is held to; the
/// bodies given here are placeholders that an implementation replaces, and an
/// implementation that kept them could not meet the contracts of `send` and `recv`
/// (for instance, no send could succeed). What is proved of the controllers holds
/// of an implementation exactly as far as it keeps these records.
pub trait CanBus {
    /// How many frames the bus can still hand out without waiting; `recv` lowers it
    /// each time it returns a frame, so draining the bus ends. A bus under continuous
    /// traffic has no such measure and so cannot meet `recv`'s contract: a drain of
    /// such a bus need not end (nor does the drain it models). An implementation
    /// that hands out frames gives its own measure.
    closed spec fn rx_backlog(&self) -> nat {
        0
    }

    /// The frames sent on this bus so far, oldest first. An implementation that
    /// sends gives its own record.
    closed spec fn sent(&self) -> Seq<FrameView> {
        Seq::empty()
    }

    /// The frames received from this bus so far, oldest first. An implementation
    /// that receives gives its own record.
    closed spec fn received(&self) -> Seq<CanFrame> {
        Seq::empty()
    }

    /// Every call made on this bus so far, with what it returned, oldest first. An
    /// implementation gives its own record.
    closed spec fn calls(&self) -> Seq<BusCall> {
        Seq::empty()
    }

    /// Sends one frame; on success it is the last frame sent, on failure nothing was sent.
    fn send(&mut self, frame: CanFrame) -> (r: Result<(), MotorError>)
        ensures
            r is Ok ==> final(self).sent() == old(self).sent().push(frame@),
            r is Err ==> final(self).sent() == old(self).sent(),
            final(self).received() == old(self).received(),
            final(self).calls() == old(self).calls().push(BusCall::Send(frame@, r)),
    ;

    /// The next received frame, `None` when none arrived within `timeout_ms`
    /// milliseconds.
    fn recv(&mut self, timeout_ms: u64) -> (r: Result<Option<CanFrame>, MotorError>)
        ensures
            r matches Ok(Some(_)) ==> final(self).rx_backlog() < old(self).rx_backlog(),
            final(self).received() == (match r {
                Ok(Some(f)) => old(self).received().push(f),
                _ => old(self).received(),
            }),
            final(self).sent() == old(self).sent(),
            final(self).calls() == old(self).calls().push(BusCall::Recv(timeout_ms, r)),
    ;

    fn shutdown(&mut self) -> (r: Result<(), MotorError>)
        ensures
            final(self).sent() == old(self).sent(),
            final(self).received() == old(self).received(),
            final(self).calls() == old(self).calls().push(BusCall::Shutdown(r)),
    ;
}

} // verus!
