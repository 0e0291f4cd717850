//! The interface a controller uses to drive one motor on a shared bus.
use vstd::prelude::*;
use crate::bus::CanFrame;
use crate::error::MotorError;

verus! {

/// One motor attached to a controller.
///
/// A motor keeps its `motor_id` for its whole life: the operations that change the
/// motor's state leave it as it was. The record functions are the model each
/// implementation is held to; the bodies given here are placeholders that an
/// implementation replaces.
pub trait MotorDevice {
    /// The motor's id on the bus. An implementation gives its own.
    closed spec fn id_of(&self) -> u16 {
        0
    }

    /// Whether a received frame is feedback for this motor. An implementation gives its own.
    closed spec fn takes(&self, frame: CanFrame) -> bool {
        false
    }

    /// The frames handed to this motor as its feedback, oldest first. An
    /// implementation that records them gives its own record.
    closed spec fn fed(&self) -> Seq<CanFrame> {
        Seq::empty()
    }

    /// What each `process_feedback_frame` call returned, oldest first. An
    /// implementation that records them gives its own record.
    closed spec fn feed_results(&self) -> Seq<Result<(), MotorError>> {
        Seq::empty()
    }

    /// The enable (`true`) and disable (`false`) requests this motor was given, each
    /// with what it returned, oldest first. An implementation that records them gives
    /// its own record.
    closed spec fn power_log(&self) -> Seq<(bool, Result<(), MotorError>)> {
        Seq::empty()
    }

    fn vendor(&self) -> &'static str;

    fn model(&self) -> &str;

    fn motor_id(&self) -> (r: u16)
        ensures
            r == self.id_of(),
    ;

    fn feedback_id(&self) -> u16;

    /// Asks the motor to enable; which frames it takes does not change.
    fn enable(&mut self) -> (r: Result<(), MotorError>)
        ensures
            final(self).id_of() == old(self).id_of(),
            forall|f: CanFrame| #[trigger] final(self).takes(f) == old(self).takes(f),
            final(self).fed() == old(self).fed(),
            final(self).power_log() == old(self).power_log().push((true, r)),
            final(self).feed_results() == old(self).feed_results(),
    ;

    /// Asks the motor to disable; which frames it takes does not change.
    fn disable(&mut self) -> (r: Result<(), MotorError>)
        ensures
            final(self).id_of() == old(self).id_of(),
            forall|f: CanFrame| #[trigger] final(self).takes(f) == old(self).takes(f),
            final(self).fed() == old(self).fed(),
            final(self).power_log() == old(self).power_log().push((false, r)),
            final(self).feed_results() == old(self).feed_results(),
    ;

    fn accepts_frame(&self, frame: &CanFrame) -> (r: bool)
        ensures
            r == self.takes(*frame),
    ;

    /// Takes `frame` as this motor's feedback; which frames it takes does not change.
    fn process_feedback_frame(&mut self, frame: CanFrame) -> (r: Result<(), MotorError>)
        ensures
            final(self).id_of() == old(self).id_of(),
            forall|f: CanFrame| #[trigger] final(self).takes(f) == old(self).takes(f),
            final(self).fed() == old(self).fed().push(frame),
            final(self).power_log() == old(self).power_log(),
            final(self).feed_results() == old(self).feed_results().push(r),
    ;
}

} // verus!
