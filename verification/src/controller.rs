//! A vendor-neutral controller: one bus, several motors with distinct ids, and the
//! routing of received feedback to the motor it belongs to.
use vstd::prelude::*;
use crate::bus::{BusCall, CanBus, CanFrame};
use crate::device::MotorDevice;
use crate::error::MotorError;
use crate::text::{dec_text, push_dec};

verus! {

/// No two entries are equal.
pub open spec fn distinct_ids(s: Seq<u16>) -> bool {
    forall|i: int, j: int| 0 <= i < s.len() && 0 <= j < s.len() && i != j ==> s[i] != s[j]
}

/// The motor ids of a list of motors, in order.
pub open spec fn ids_of<D: MotorDevice>(devs: Seq<D>) -> Seq<u16> {
    Seq::new(devs.len(), |i: int| devs[i].id_of())
}

/// Position of the first motor that takes `frame` as its feedback, if any.
pub open spec fn first_taker<D: MotorDevice>(devs: Seq<D>, frame: CanFrame) -> Option<int> {
    if exists|i: int| 0 <= i < devs.len() && devs[i].takes(frame) {
        Some(
            choose|i: int|
                0 <= i < devs.len() && devs[i].takes(frame) && forall|k: int|
                    0 <= k < i ==> !devs[k].takes(frame),
        )
    } else {
        None
    }
}

/// Where a frame goes: received frames to the first motor that takes them, nothing else anywhere.
pub open spec fn route_of<D: MotorDevice>(devs: Seq<D>, frame: CanFrame) -> Option<int> {
    if frame.is_rx {
        first_taker(devs, frame)
    } else {
        None
    }
}

/// The text of the error for adding a motor whose id is taken.
pub open spec fn duplicate_id_text(id: u16) -> Seq<char> {
    "device with motor_id "@ + dec_text(id as nat) + " already exists"@
}

/// `after` holds the same motors as `before`, each possibly in a new state but with its
/// id and taking the same frames.
pub open spec fn same_motors<D: MotorDevice>(before: Seq<D>, after: Seq<D>) -> bool {
    &&& after.len() == before.len()
    &&& forall|k: int| 0 <= k < before.len() ==> #[trigger] after[k].id_of() == before[k].id_of()
    &&& forall|k: int, f: CanFrame|
        0 <= k < before.len() ==> #[trigger] after[k].takes(f) == before[k].takes(f)
}

/// The frames among `frames` that go to the motor at position `k`, in order.
pub open spec fn routed_to<D: MotorDevice>(devs: Seq<D>, k: int, frames: Seq<CanFrame>) -> Seq<
    CanFrame,
>
    decreases frames.len(),
{
    if frames.len() == 0 {
        Seq::empty()
    } else {
        let earlier = routed_to(devs, k, frames.drop_last());
        if route_of(devs, frames.last()) == Some(k) {
            earlier.push(frames.last())
        } else {
            earlier
        }
    }
}

/// The first `n` motors of `before` were asked to enable (`on`) or disable (`!on`)
/// once, the others not at all, and none was handed feedback.
pub open spec fn powered_prefix<D: MotorDevice>(
    before: Seq<D>,
    after: Seq<D>,
    on: bool,
    n: int,
) -> bool {
    forall|k: int|
        0 <= k < before.len() ==> {
            &&& #[trigger] after[k].power_log() == (if k < n {
                before[k].power_log().push((on, power_result(after[k])))
            } else {
                before[k].power_log()
            })
            &&& after[k].fed() == before[k].fed()
        }
}

/// What a motor's last enable or disable request returned.
pub open spec fn power_result<D: MotorDevice>(d: D) -> Result<(), MotorError> {
    d.power_log().last().1
}

/// The first `n` motors all answered their last request with `Ok`.
pub open spec fn all_ok<D: MotorDevice>(motors: Seq<D>, n: int) -> bool {
    forall|k: int| 0 <= k < n ==> #[trigger] power_result(motors[k]) is Ok
}

/// Switching the motors in turn, stopping at the first one that fails, returned `r`:
/// either every motor was asked and all succeeded and `r` is `Ok`, or the first `n`
/// were asked, all but the last succeeded, and `r` is the last one's error.
pub open spec fn switched_in_turn<D: MotorDevice>(
    before: Seq<D>,
    after: Seq<D>,
    on: bool,
    r: Result<(), MotorError>,
) -> bool {
    ||| r is Ok && powered_prefix(before, after, on, before.len() as int) && all_ok(
        after,
        before.len() as int,
    )
    ||| exists|n: int|
        1 <= n <= before.len() && powered_prefix(before, after, on, n) && all_ok(after, n - 1)
            && #[trigger] power_result(after[n - 1]) == r && r is Err
}

/// The receives a drain of the bus made, and what it returned: each receive waited
/// zero milliseconds; each but the last gave a frame; the last one ended the drain,
/// because the bus was empty (`Ok`), because the bus failed (its error), or because
/// the motor that took its frame failed (an error).
pub open spec fn drained(calls: Seq<BusCall>, r: Result<(), MotorError>) -> bool {
    &&& calls.len() >= 1
    &&& forall|i: int|
        0 <= i < calls.len() - 1 ==> ((#[trigger] calls[i]) matches BusCall::Recv(t, Ok(Some(_)))
            && t == 0)
    &&& match calls.last() {
        BusCall::Recv(t, got) => t == 0 && match got {
            Ok(None) => r is Ok,
            Err(e) => r == Err::<(), MotorError>(e),
            Ok(Some(_)) => r is Err,
        },
        _ => false,
    }
}

/// `after` is `before` with exactly the frames of `frames` handed to the motors they
/// go to, in order, and no power requests.
pub open spec fn fed_with<D: MotorDevice>(before: Seq<D>, after: Seq<D>, frames: Seq<CanFrame>) -> bool {
    forall|k: int|
        0 <= k < before.len() ==> {
            &&& #[trigger] after[k].fed() == before[k].fed() + routed_to(before, k, frames)
            &&& after[k].power_log() == before[k].power_log()
        }
}

/// No frames handed out: every motor was fed nothing more.
proof fn lemma_fed_nothing<D: MotorDevice>(devs: Seq<D>)
    ensures
        fed_with(devs, devs, Seq::empty()),
{
    assert forall|k: int| 0 <= k < devs.len() implies {
        &&& #[trigger] devs[k].fed() == devs[k].fed() + routed_to(devs, k, Seq::empty())
        &&& devs[k].power_log() == devs[k].power_log()
    } by {
        assert(devs[k].fed() + Seq::<CanFrame>::empty() =~= devs[k].fed());
    }
}

/// The frames routed to a motor, after one more frame.
proof fn lemma_routed_push<D: MotorDevice>(devs: Seq<D>, k: int, seen: Seq<CanFrame>, frame: CanFrame)
    ensures
        routed_to(devs, k, seen.push(frame)) == (if route_of(devs, frame) == Some(k) {
            routed_to(devs, k, seen).push(frame)
        } else {
            routed_to(devs, k, seen)
        }),
{
    let now = seen.push(frame);
    assert(now.drop_last() =~= seen);
    assert(now.last() == frame);
}

/// Motors in the same order with the same ids and frames taken stay so.
proof fn lemma_same_motors_trans<D: MotorDevice>(a: Seq<D>, b: Seq<D>, c: Seq<D>)
    requires
        same_motors(a, b),
        same_motors(b, c),
    ensures
        same_motors(a, c),
{
    assert forall|k: int, f: CanFrame| 0 <= k < a.len() implies #[trigger] c[k].takes(f)
        == a[k].takes(f) by {
        assert(c[k].takes(f) == b[k].takes(f));
        assert(b[k].takes(f) == a[k].takes(f));
    }
    assert forall|k: int| 0 <= k < a.len() implies #[trigger] c[k].id_of() == a[k].id_of() by {
        assert(c[k].id_of() == b[k].id_of());
    }
}

/// Routing one more frame extends what each motor was fed by that frame, for the
/// motor it goes to.
#[verifier::spinoff_prover]
proof fn lemma_fed_step<D: MotorDevice>(
    devs0: Seq<D>,
    before: Seq<D>,
    after: Seq<D>,
    seen: Seq<CanFrame>,
    frame: CanFrame,
)
    requires
        same_motors(devs0, before),
        same_motors(before, after),
        fed_with(devs0, before, seen),
        route_of(before, frame) is None ==> after == before,
        route_of(before, frame) matches Some(i) ==> {
            &&& after[i].fed() == before[i].fed().push(frame)
            &&& after[i].power_log() == before[i].power_log()
            &&& forall|k: int| 0 <= k < before.len() && k != i ==> after[k] == before[k]
        },
    ensures
        same_motors(devs0, after),
        fed_with(devs0, after, seen.push(frame)),
{
    lemma_route_same(devs0, before, frame);
    lemma_same_motors_trans(devs0, before, after);
    assert forall|k: int| 0 <= k < devs0.len() implies {
        &&& #[trigger] after[k].fed() == devs0[k].fed() + routed_to(devs0, k, seen.push(frame))
        &&& after[k].power_log() == devs0[k].power_log()
    } by {
        lemma_routed_push(devs0, k, seen, frame);
        assert(before[k].fed() == devs0[k].fed() + routed_to(devs0, k, seen));
        assert(before[k].power_log() == devs0[k].power_log());
        if route_of(devs0, frame) == Some(k) {
            assert((devs0[k].fed() + routed_to(devs0, k, seen)).push(frame) =~= devs0[k].fed()
                + routed_to(devs0, k, seen).push(frame));
        }
    }
}

/// Motors that take the same frames route every frame alike.
proof fn lemma_route_same<D: MotorDevice>(a: Seq<D>, b: Seq<D>, f: CanFrame)
    requires
        same_motors(a, b),
    ensures
        route_of(a, f) == route_of(b, f),
{
    assert forall|i: int| 0 <= i < a.len() implies a[i].takes(f) == b[i].takes(f) by {
        assert(b[i].takes(f) == a[i].takes(f));
    }
    if f.is_rx && exists|i: int| 0 <= i < a.len() && a[i].takes(f) {
        let ia = choose|i: int|
            0 <= i < a.len() && a[i].takes(f) && forall|k: int| 0 <= k < i ==> !a[k].takes(f);
        let ib = choose|i: int|
            0 <= i < b.len() && b[i].takes(f) && forall|k: int| 0 <= k < i ==> !b[k].takes(f);
        let w = choose|i: int| 0 <= i < a.len() && a[i].takes(f);
        lemma_first_taker_exists(a, f, w);
        assert(b[w].takes(f));
        lemma_first_taker_exists(b, f, w);
        if ia < ib {
            assert(b[ia].takes(f));
        }
        if ib < ia {
            assert(a[ib].takes(f));
        }
    }
}

/// Once a motor is in the list, its id is taken: adding another motor with that id
/// is refused.
pub proof fn added_id_is_taken<D: MotorDevice>(motors: Seq<D>, d: D)
    ensures
        ids_of(motors.push(d)).contains(d.id_of()),
{
    assert(ids_of(motors.push(d))[motors.len() as int] == d.id_of());
}

/// Adding a motor whose id is free keeps the ids distinct.
pub proof fn fresh_add_keeps_ids_distinct<D: MotorDevice>(motors: Seq<D>, d: D)
    requires
        distinct_ids(ids_of(motors)),
        !ids_of(motors).contains(d.id_of()),
    ensures
        distinct_ids(ids_of(motors.push(d))),
{
    let before = ids_of(motors);
    let after = ids_of(motors.push(d));
    assert(after =~= before.push(d.id_of()));
    assert forall|i: int, j: int|
        0 <= i < after.len() && 0 <= j < after.len() && i != j implies after[i] != after[j] by {
        if i == before.len() {
            assert(before[j] == after[j]);
        } else if j == before.len() {
            assert(before[i] == after[i]);
        }
    }
}

/// A received frame goes to one motor only, the first that takes it, and to some
/// motor whenever one takes it; a frame the bus sent goes nowhere.
pub proof fn route_is_first_taker<D: MotorDevice>(devs: Seq<D>, frame: CanFrame)
    ensures
        !frame.is_rx ==> route_of(devs, frame) is None,
        route_of(devs, frame) matches Some(i) ==> {
            &&& 0 <= i < devs.len()
            &&& devs[i].takes(frame)
            &&& forall|k: int| 0 <= k < i ==> !devs[k].takes(frame)
        },
        frame.is_rx && (exists|i: int| 0 <= i < devs.len() && devs[i].takes(frame)) ==> route_of(
            devs,
            frame,
        ) is Some,
{
    if frame.is_rx && exists|i: int| 0 <= i < devs.len() && devs[i].takes(frame) {
        let w = choose|i: int| 0 <= i < devs.len() && devs[i].takes(frame);
        lemma_first_taker_exists(devs, frame, w);
    }
}

proof fn lemma_first_taker_exists<D: MotorDevice>(devs: Seq<D>, frame: CanFrame, w: int)
    requires
        0 <= w < devs.len(),
        devs[w].takes(frame),
    ensures
        exists|i: int|
            0 <= i < devs.len() && devs[i].takes(frame) && forall|k: int|
                0 <= k < i ==> !devs[k].takes(frame),
    decreases w,
{
    if exists|k: int| 0 <= k < w && devs[k].takes(frame) {
        let k = choose|k: int| 0 <= k < w && devs[k].takes(frame);
        lemma_first_taker_exists(devs, frame, k);
    } else {
        assert(forall|k: int| 0 <= k < w ==> !devs[k].takes(frame));
    }
}

/// What the background poller does after one receive.
#[derive(Clone, Copy, Debug, PartialEq, Eq, Structural)]
pub enum PollNext {
    /// A frame came: receive again at once.
    Drain,
    /// The bus was empty: pause briefly, then receive again.
    Idle,
    /// Receiving failed: stop polling.
    Stop,
}

/// The pause of the background poller when the bus is empty, in microseconds.
pub const IDLE_SLEEP_MICROS: u64 = 200;

/// A bus together with the motors on it.
pub struct CoreController<B: CanBus, D: MotorDevice> {
    bus: B,
    devices: Vec<D>,
}

impl<B: CanBus, D: MotorDevice> CoreController<B, D> {
    /// The motors, in the order they were added.
    pub closed spec fn motors(&self) -> Seq<D> {
        self.devices@
    }

    /// The bus the motors share.
    pub closed spec fn the_bus(&self) -> B {
        self.bus
    }

    /// The controller's invariant: motor ids are distinct.
    pub open spec fn wf(&self) -> bool {
        distinct_ids(ids_of(self.motors()))
    }

    /// A controller on `bus` with no motors.
    pub fn new(bus: B) -> (c: Self)
        ensures
            c.wf(),
            c.motors() == Seq::<D>::empty(),
            c.the_bus() == bus,
    {
        CoreController { bus, devices: Vec::new() }
    }

    pub fn bus(&self) -> (b: &B)
        ensures
            *b == self.the_bus(),
    {
        &self.bus
    }

    pub fn bus_mut(&mut self) -> (b: &mut B)
        ensures
            *b == old(self).the_bus(),
            final(self).the_bus() == *final(b),
            final(self).motors() == old(self).motors(),
    {
        &mut self.bus
    }

    pub fn device_count(&self) -> (n: usize)
        ensures
            n == self.motors().len(),
    {
        self.devices.len()
    }

    pub fn device(&self, i: usize) -> (d: &D)
        requires
            i < self.motors().len(),
        ensures
            *d == self.motors()[i as int],
    {
        &self.devices[i]
    }

    /// Position of the motor with `motor_id`, if there is one.
    pub fn position_of(&self, motor_id: u16) -> (r: Option<usize>)
        ensures
            match r {
                Some(i) => i < self.motors().len() && self.motors()[i as int].id_of() == motor_id,
                None => !ids_of(self.motors()).contains(motor_id),
            },
    {
        let mut i: usize = 0;
        while i < self.devices.len()
            invariant
                i <= self.devices@.len(),
                forall|k: int| 0 <= k < i ==> self.devices@[k].id_of() != motor_id,
            decreases self.devices@.len() - i,
        {
            if self.devices[i].motor_id() == motor_id {
                return Some(i);
            }
            i = i + 1;
        }
        proof {
            if ids_of(self.motors()).contains(motor_id) {
                let k = choose|k: int|
                    0 <= k < ids_of(self.motors()).len() && ids_of(self.motors())[k] == motor_id;
                assert(self.devices@[k].id_of() == motor_id);
            }
        }
        None
    }

    /// Adds a motor; a motor whose id is already taken is refused.
    pub fn add_device(&mut self, device: D) -> (r: Result<(), MotorError>)
        requires
            old(self).wf(),
        ensures
            final(self).wf(),
            final(self).the_bus() == old(self).the_bus(),
            ids_of(old(self).motors()).contains(device.id_of()) ==> {
                &&& r matches Err(MotorError::InvalidArgument(m)) && m@ == duplicate_id_text(
                    device.id_of(),
                )
                &&& final(self).motors() == old(self).motors()
            },
            !ids_of(old(self).motors()).contains(device.id_of()) ==> {
                &&& r is Ok
                &&& final(self).motors() == old(self).motors().push(device)
            },
    {
        let motor_id = device.motor_id();
        if let Some(i) = self.position_of(motor_id) {
            assert(ids_of(self.motors())[i as int] == motor_id);
            let mut m = String::from_str("device with motor_id ");
            push_dec(&mut m, motor_id as u64);
            m.append(" already exists");
            return Err(MotorError::InvalidArgument(m));
        }
        let ghost before = self.devices@;
        self.devices.push(device);
        proof {
            assert(ids_of(self.devices@) =~= ids_of(before).push(motor_id));
        }
        Ok(())
    }

    /// Position of the first motor that takes `frame`, if any.
    fn find_taker(&self, frame: &CanFrame) -> (r: Option<usize>)
        ensures
            match r {
                Some(i) => i < self.motors().len() && first_taker(self.motors(), *frame) == Some(
                    i as int,
                ),
                None => first_taker(self.motors(), *frame) is None,
            },
    {
        let mut i: usize = 0;
        while i < self.devices.len()
            invariant
                i <= self.devices@.len(),
                forall|k: int| 0 <= k < i ==> !self.devices@[k].takes(*frame),
            decreases self.devices@.len() - i,
        {
            if self.devices[i].accepts_frame(frame) {
                proof {
                    let devs = self.devices@;
                    let w = choose|w: int|
                        0 <= w < devs.len() && devs[w].takes(*frame) && forall|k: int|
                            0 <= k < w ==> !devs[k].takes(*frame);
                    if w > i {
                        assert(!devs[i as int].takes(*frame));
                    }
                    assert(w == i);
                }
                return Some(i);
            }
            i = i + 1;
        }
        None
    }

    /// Hands one frame to the motor it is feedback for: received frames go to the first
    /// motor that takes them; other frames, and frames no motor takes, go nowhere.
    /// Returns whether some motor took the frame.
    pub fn route_frame(&mut self, frame: CanFrame) -> (r: Result<bool, MotorError>)
        requires
            old(self).wf(),
        ensures
            final(self).wf(),
            final(self).the_bus() == old(self).the_bus(),
            same_motors(old(self).motors(), final(self).motors()),
            route_of(old(self).motors(), frame) is None ==> {
                &&& r matches Ok(b) && !b
                &&& final(self).motors() == old(self).motors()
            },
            route_of(old(self).motors(), frame) matches Some(i) ==> {
                &&& final(self).motors()[i].feed_results() == old(self).motors()[i].feed_results().push(
                    final(self).motors()[i].feed_results().last(),
                )
                &&& r == match final(self).motors()[i].feed_results().last() {
                    Ok(_) => Ok::<bool, MotorError>(true),
                    Err(e) => Err::<bool, MotorError>(e),
                }
                &&& final(self).motors()[i].fed() == old(self).motors()[i].fed().push(frame)
                &&& final(self).motors()[i].power_log() == old(self).motors()[i].power_log()
                &&& forall|k: int|
                    0 <= k < old(self).motors().len() && k != i ==> final(self).motors()[k]
                        == old(self).motors()[k]
            },
    {
        if !frame.is_rx {
            return Ok(false);
        }
        match self.find_taker(&frame) {
            None => Ok(false),
            Some(i) => {
                let ghost before = self.devices@;
                let res = self.devices[i].process_feedback_frame(frame);
                proof {
                    assert(ids_of(self.devices@) =~= ids_of(before));
                }
                match res {
                    Ok(()) => Ok(true),
                    Err(e) => Err(e),
                }
            },
        }
    }

    /// Drains the bus, handing each received frame to its motor; stops at the first
    /// error of the bus or of a motor, which it returns, and returns `Ok` once the bus
    /// is empty. It ends because the bus's backlog falls with each frame (see
    /// `CanBus::rx_backlog`); under continuous traffic it would not.
    pub fn poll_feedback_once(&mut self) -> (r: Result<(), MotorError>)
        requires
            old(self).wf(),
        ensures
            final(self).wf(),
            old(self).the_bus().calls().len() <= final(self).the_bus().calls().len(),
            final(self).the_bus().calls().subrange(0, old(self).the_bus().calls().len() as int)
                == old(self).the_bus().calls(),
            drained(
                final(self).the_bus().calls().subrange(
                    old(self).the_bus().calls().len() as int,
                    final(self).the_bus().calls().len() as int,
                ),
                r,
            ),
            final(self).the_bus().calls().last() matches BusCall::Recv(_, Ok(Some(f))) ==> {
                &&& route_of(old(self).motors(), f) matches Some(i)
                &&& final(self).motors()[i].feed_results().last() == r
            },
            same_motors(old(self).motors(), final(self).motors()),
            final(self).the_bus().sent() == old(self).the_bus().sent(),
            old(self).the_bus().received().len() <= final(self).the_bus().received().len(),
            final(self).the_bus().received().subrange(
                0,
                old(self).the_bus().received().len() as int,
            ) == old(self).the_bus().received(),
            fed_with(
                old(self).motors(),
                final(self).motors(),
                final(self).the_bus().received().subrange(
                    old(self).the_bus().received().len() as int,
                    final(self).the_bus().received().len() as int,
                ),
            ),
    {
        let ghost start = self.bus.received().len();
        let ghost c0 = self.bus.calls();
        let ghost devs0 = self.devices@;
        proof {
            assert(self.bus.received().subrange(start as int, start as int) =~= Seq::<
                CanFrame,
            >::empty());
            assert(self.bus.received().subrange(0, start as int) =~= self.bus.received());
            assert forall|k: int| 0 <= k < devs0.len() implies {
                &&& #[trigger] devs0[k].fed() == devs0[k].fed() + routed_to(
                    devs0,
                    k,
                    Seq::<CanFrame>::empty(),
                )
                &&& devs0[k].power_log() == devs0[k].power_log()
            } by {
                assert(devs0[k].fed() + Seq::<CanFrame>::empty() =~= devs0[k].fed());
            }
        }
        loop
            invariant
                self.wf(),
                devs0 == old(self).motors(),
                start == old(self).the_bus().received().len(),
                same_motors(devs0, self.motors()),
                self.the_bus().sent() == old(self).the_bus().sent(),
                start <= self.the_bus().received().len(),
                c0 == old(self).the_bus().calls(),
                c0.len() <= self.the_bus().calls().len(),
                self.the_bus().calls().subrange(0, c0.len() as int) == c0,
                forall|i: int|
                    c0.len() <= i < self.the_bus().calls().len() ==> ((#[trigger] self.the_bus().calls()[i]) matches BusCall::Recv(t, Ok(Some(_))) && t == 0),
                self.the_bus().received().subrange(0, start as int) == old(self).the_bus().received(),
                fed_with(
                    devs0,
                    self.motors(),
                    self.the_bus().received().subrange(
                        start as int,
                        self.the_bus().received().len() as int,
                    ),
                ),
            decreases self.bus.rx_backlog(),
        {
            let ghost before_rx = self.bus.received();
            let ghost before_devs = self.devices@;
            let ghost before_calls = self.bus.calls();
            let got = self.bus.recv(0);
            proof {
                let c = self.bus.calls();
                assert(c.subrange(0, c0.len() as int) =~= c0);
                let tail = c.subrange(c0.len() as int, c.len() as int);
                assert(tail.last() == BusCall::Recv(0, got));
                assert forall|i: int| 0 <= i < tail.len() - 1 implies ((#[trigger] tail[i]) matches BusCall::Recv(t, Ok(Some(_))) && t == 0) by {
                    assert(tail[i] == before_calls[c0.len() + i]);
                }
            }
            match got {
                Err(e) => {
                    return Err(e);
                },
                Ok(None) => {
                    return Ok(());
                },
                Ok(Some(frame)) => {
                    let routed = self.route_frame(frame);
                    proof {
                        let seen = before_rx.subrange(start as int, before_rx.len() as int);
                        let rx = self.bus.received();
                        assert(rx.subrange(start as int, rx.len() as int) =~= seen.push(frame));
                        assert(rx.subrange(0, start as int) =~= before_rx.subrange(0, start as int));
                        lemma_fed_step(devs0, before_devs, self.devices@, seen, frame);
                    }
                    if let Err(e) = routed {
                        proof {
                            lemma_route_same(devs0, before_devs, frame);
                            assert(self.bus.calls().last() == BusCall::Recv(0, got));
                        }
                        return Err(e);
                    }
                },
            }
        }
    }

    /// One step of the background poller, given what one zero-wait receive gave: a
    /// frame goes to its motor (a motor's error is dropped) and the poller keeps
    /// draining; an empty bus means a short pause; a receive error stops it.
    pub fn poll_step(&mut self, got: Result<Option<CanFrame>, MotorError>) -> (n: PollNext)
        requires
            old(self).wf(),
        ensures
            final(self).wf(),
            final(self).the_bus() == old(self).the_bus(),
            same_motors(old(self).motors(), final(self).motors()),
            match got {
                Ok(Some(frame)) => n == PollNext::Drain && fed_with(
                    old(self).motors(),
                    final(self).motors(),
                    seq![frame],
                ),
                Ok(None) => n == PollNext::Idle && final(self).motors() == old(self).motors(),
                Err(_) => n == PollNext::Stop && final(self).motors() == old(self).motors(),
            },
    {
        match got {
            Ok(Some(frame)) => {
                let ghost before = self.devices@;
                let _ = self.route_frame(frame);
                proof {
                    lemma_fed_nothing(before);
                    assert(same_motors(before, before));
                    lemma_fed_step(before, before, self.devices@, Seq::empty(), frame);
                    assert(Seq::<CanFrame>::empty().push(frame) =~= seq![frame]);
                }
                PollNext::Drain
            },
            Ok(None) => PollNext::Idle,
            Err(_) => PollNext::Stop,
        }
    }

    /// Enables every motor in turn, in the order they were added; stops at the first
    /// motor that fails, which was asked too.
    pub fn enable_all(&mut self) -> (r: Result<(), MotorError>)
        requires
            old(self).wf(),
        ensures
            final(self).wf(),
            final(self).the_bus() == old(self).the_bus(),
            same_motors(old(self).motors(), final(self).motors()),
            switched_in_turn(old(self).motors(), final(self).motors(), true, r),
    {
        let mut i: usize = 0;
        while i < self.devices.len()
            invariant
                i <= self.devices@.len(),
                self.wf(),
                self.the_bus() == old(self).the_bus(),
                same_motors(old(self).motors(), self.motors()),
                powered_prefix(old(self).motors(), self.motors(), true, i as int),
                all_ok(self.motors(), i as int),
            decreases self.devices@.len() - i,
        {
            let ghost before = self.devices@;
            let res = self.devices[i].enable();
            proof {
                assert(ids_of(self.devices@) =~= ids_of(before));
                lemma_same_motors_trans(old(self).motors(), before, self.devices@);
                assert(power_result(self.devices@[i as int]) == res);
                assert(powered_prefix(old(self).motors(), self.motors(), true, i + 1));
                assert forall|k: int| 0 <= k < i implies #[trigger] power_result(self.motors()[k]) is Ok by {
                    assert(self.devices@[k] == before[k]);
                }
            }
            if let Err(e) = res {
                proof {
                    assert(power_result(self.motors()[i + 1 - 1]) == res);
                }
                return Err(e);
            }
            i = i + 1;
        }
        Ok(())
    }

    /// Disables every motor in turn, in the order they were added; stops at the first
    /// motor that fails, which was asked too.
    pub fn disable_all(&mut self) -> (r: Result<(), MotorError>)
        requires
            old(self).wf(),
        ensures
            final(self).wf(),
            final(self).the_bus() == old(self).the_bus(),
            same_motors(old(self).motors(), final(self).motors()),
            switched_in_turn(old(self).motors(), final(self).motors(), false, r),
    {
        let mut i: usize = 0;
        while i < self.devices.len()
            invariant
                i <= self.devices@.len(),
                self.wf(),
                self.the_bus() == old(self).the_bus(),
                same_motors(old(self).motors(), self.motors()),
                powered_prefix(old(self).motors(), self.motors(), false, i as int),
                all_ok(self.motors(), i as int),
            decreases self.devices@.len() - i,
        {
            let ghost before = self.devices@;
            let res = self.devices[i].disable();
            proof {
                assert(ids_of(self.devices@) =~= ids_of(before));
                lemma_same_motors_trans(old(self).motors(), before, self.devices@);
                assert(power_result(self.devices@[i as int]) == res);
                assert(powered_prefix(old(self).motors(), self.motors(), false, i + 1));
                assert forall|k: int| 0 <= k < i implies #[trigger] power_result(self.motors()[k]) is Ok by {
                    assert(self.devices@[k] == before[k]);
                }
            }
            if let Err(e) = res {
                proof {
                    assert(power_result(self.motors()[i + 1 - 1]) == res);
                }
                return Err(e);
            }
            i = i + 1;
        }
        Ok(())
    }

    /// Asks the motors to disable, in order (a motor's failure ends that, and is not
    /// returned), and then shuts the bus down; returns what the bus's shutdown gave.
    pub fn shutdown(&mut self) -> (r: Result<(), MotorError>)
        requires
            old(self).wf(),
        ensures
            final(self).wf(),
            same_motors(old(self).motors(), final(self).motors()),
            exists|d: Result<(), MotorError>|
                switched_in_turn(old(self).motors(), final(self).motors(), false, d),
            final(self).the_bus().sent() == old(self).the_bus().sent(),
            final(self).the_bus().received() == old(self).the_bus().received(),
            final(self).the_bus().calls() == old(self).the_bus().calls().push(BusCall::Shutdown(r)),
    {
        self.close_inner(true)
    }

    /// Shuts the bus down and leaves the motors as they are.
    pub fn close_bus(&mut self) -> (r: Result<(), MotorError>)
        requires
            old(self).wf(),
        ensures
            final(self).wf(),
            final(self).motors() == old(self).motors(),
            final(self).the_bus().sent() == old(self).the_bus().sent(),
            final(self).the_bus().received() == old(self).the_bus().received(),
            final(self).the_bus().calls() == old(self).the_bus().calls().push(BusCall::Shutdown(r)),
    {
        self.close_inner(false)
    }

    fn close_inner(&mut self, disable_devices: bool) -> (r: Result<(), MotorError>)
        requires
            old(self).wf(),
        ensures
            final(self).wf(),
            same_motors(old(self).motors(), final(self).motors()),
            disable_devices ==> exists|d: Result<(), MotorError>|
                switched_in_turn(old(self).motors(), final(self).motors(), false, d),
            !disable_devices ==> final(self).motors() == old(self).motors(),
            final(self).the_bus().sent() == old(self).the_bus().sent(),
            final(self).the_bus().received() == old(self).the_bus().received(),
            final(self).the_bus().calls() == old(self).the_bus().calls().push(BusCall::Shutdown(r)),
    {
        if disable_devices {
            let _ = self.disable_all();
        }
        self.bus.shutdown()
    }
}

} // verus!
