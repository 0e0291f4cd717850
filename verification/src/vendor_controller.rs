//! A controller for the motors of one vendor: a `CoreController` plus a lookup of
//! the motors by the id they were added under.
use vstd::prelude::*;
use crate::bus::CanBus;
use crate::bus::BusCall;
use crate::controller::{
    drained, duplicate_id_text, fed_with, ids_of, route_of, same_motors, switched_in_turn,
    CoreController,
};
use crate::device::MotorDevice;
use crate::error::MotorError;
use crate::text::{dec_text, push_dec};

verus! {

/// Position of the entry for `key`, if any.
pub open spec fn slot_of(entries: Seq<(u16, usize)>, key: u16) -> Option<int>
    decreases entries.len(),
{
    if entries.len() == 0 {
        None
    } else if entries.last().0 == key {
        Some(entries.len() - 1)
    } else {
        slot_of(entries.drop_last(), key)
    }
}

pub open spec fn not_found_text(id: u16) -> Seq<char> {
    "motor "@ + dec_text(id as nat) + " not found"@
}

/// The motors of one vendor on a shared bus.
pub struct VendorController<B: CanBus + Clone, M: MotorDevice> {
    core: CoreController<B, M>,
    entries: Vec<(u16, usize)>,
}

proof fn lemma_slot_of_bounds(entries: Seq<(u16, usize)>, key: u16)
    ensures
        slot_of(entries, key) matches Some(i) ==> 0 <= i < entries.len() && entries[i].0 == key,
        slot_of(entries, key) is None ==> forall|i: int|
            0 <= i < entries.len() ==> entries[i].0 != key,
    decreases entries.len(),
{
    if entries.len() > 0 {
        lemma_slot_of_bounds(entries.drop_last(), key);
        if slot_of(entries, key) is None {
            assert forall|i: int| 0 <= i < entries.len() implies entries[i].0 != key by {
                if i < entries.len() - 1 {
                    assert(entries[i] == entries.drop_last()[i]);
                }
            }
        }
    }
}

proof fn lemma_slot_of_unique(entries: Seq<(u16, usize)>, key: u16, i: int)
    requires
        0 <= i < entries.len(),
        entries[i].0 == key,
        forall|a: int, b: int|
            0 <= a < entries.len() && 0 <= b < entries.len() && a != b ==> entries[a].0
                != entries[b].0,
    ensures
        slot_of(entries, key) == Some(i),
    decreases entries.len(),
{
    if i < entries.len() - 1 {
        lemma_slot_of_unique(entries.drop_last(), key, i);
    }
}

impl<B: CanBus + Clone, M: MotorDevice> VendorController<B, M> {
    pub closed spec fn core_of(&self) -> CoreController<B, M> {
        self.core
    }

    /// The motor added under `key`, if any.
    pub closed spec fn motor_of(&self, key: u16) -> Option<M> {
        match slot_of(self.entries@, key) {
            Some(i) => Some(self.core.motors()[self.entries@[i].1 as int]),
            None => None,
        }
    }

    /// How many keys have a motor.
    pub closed spec fn key_count(&self) -> nat {
        self.entries@.len()
    }

    pub closed spec fn wf(&self) -> bool {
        &&& self.core.wf()
        &&& forall|a: int, b: int|
            0 <= a < self.entries@.len() && 0 <= b < self.entries@.len() && a != b
                ==> self.entries@[a].0 != self.entries@[b].0
        &&& forall|a: int|
            0 <= a < self.entries@.len() ==> (#[trigger] self.entries@[a]).1
                < self.core.motors().len()
    }

    /// A controller on `bus` with no motors.
    pub fn new(bus: B) -> (c: Self)
        ensures
            c.wf(),
            c.key_count() == 0,
            forall|k: u16| c.motor_of(k) is None,
            c.core_of().the_bus() == bus,
    {
        VendorController { core: CoreController::new(bus), entries: Vec::new() }
    }

    pub fn bus(&self) -> (b: &B)
        ensures
            *b == self.core_of().the_bus(),
    {
        self.core.bus()
    }

    /// Builds a motor on a handle of the bus and adds it under `motor_id`; a builder
    /// failure, or a motor whose id is taken, leaves the controller as it was.
    pub fn add_motor_with<F: FnOnce(B) -> Result<M, MotorError>>(
        &mut self,
        motor_id: u16,
        builder: F,
    ) -> (r: Result<(), MotorError>)
        requires
            old(self).wf(),
            forall|b: B| builder.requires((b,)),
        ensures
            final(self).wf(),
            final(self).core_of().the_bus() == old(self).core_of().the_bus(),
            r is Err ==> final(self).key_count() == old(self).key_count() && forall|k: u16|
                final(self).motor_of(k) == old(self).motor_of(k),
            r matches Err(e) ==> {
                ||| exists|b: B| #[trigger] builder.ensures((b,), Err::<M, MotorError>(e))
                ||| exists|b: B, m: M|
                    {
                        &&& #[trigger] builder.ensures((b,), Ok::<M, MotorError>(m))
                        &&& ids_of(old(self).core_of().motors()).contains(m.id_of())
                        &&& e matches MotorError::InvalidArgument(t) && t@ == duplicate_id_text(
                            m.id_of(),
                        )
                    }
            },
            r is Ok ==> exists|b: B, m: M|
                {
                    &&& builder.ensures((b,), Ok::<M, MotorError>(m))
                    &&& !ids_of(old(self).core_of().motors()).contains(m.id_of())
                    &&& final(self).motor_of(motor_id) == Some(m)
                    &&& final(self).key_count() == old(self).key_count() + (if old(self).motor_of(
                        motor_id,
                    ) is Some {
                        0int
                    } else {
                        1int
                    })
                    &&& forall|k: u16| k != motor_id ==> final(self).motor_of(k) == old(self).motor_of(k)
                },
    {
        let handle = self.core.bus().clone();
        let built = builder(handle);
        let motor = match built {
            Ok(m) => m,
            Err(e) => {
                return Err(e);
            },
        };
        let ghost m = motor;
        let ghost old_entries = self.entries@;
        let ghost old_core = self.core.motors();
        let added = self.core.add_device(motor);
        if let Err(e) = added {
            return Err(e);
        }
        let idx = self.core.device_count() - 1;
        assert(self.core.motors()[idx as int] == m);
        let mut i: usize = 0;
        let mut found: Option<usize> = None;
        while i < self.entries.len()
            invariant
                i <= self.entries@.len(),
                self.entries@ == old_entries,
                found is None ==> forall|j: int| 0 <= j < i ==> self.entries@[j].0 != motor_id,
                found matches Some(j) ==> j < self.entries@.len() && self.entries@[j as int].0
                    == motor_id,
            decreases self.entries@.len() - i,
        {
            if found.is_none() && self.entries[i].0 == motor_id {
                found = Some(i);
            }
            i = i + 1;
        }
        proof {
            lemma_slot_of_bounds(old_entries, motor_id);
        }
        match found {
            Some(j) => {
                self.entries.set(j, (motor_id, idx));
                proof {
                    let ne = self.entries@;
                    assert(ne == old_entries.update(j as int, (motor_id, idx)));
                    assert forall|a: int, b: int|
                        0 <= a < ne.len() && 0 <= b < ne.len() && a != b implies ne[a].0 != ne[b].0 by {
                        assert(old_entries[j as int].0 == motor_id);
                    }
                    assert forall|k: u16| k != motor_id implies self.motor_of(k) == old(self).motor_of(k) by {
                        lemma_slot_of_bounds(old_entries, k);
                        lemma_slot_of_bounds(ne, k);
                        if let Some(a) = slot_of(old_entries, k) {
                            assert(a != j);
                            assert(ne[a] == old_entries[a]);
                            lemma_slot_of_unique(ne, k, a);
                            assert(old_entries[a].1 < old_core.len());
                        } else {
                            if let Some(b) = slot_of(ne, k) {
                                assert(b != j);
                                assert(ne[b] == old_entries[b]);
                            }
                        }
                    }
                    lemma_slot_of_unique(ne, motor_id, j as int);
                }
            },
            None => {
                self.entries.push((motor_id, idx));
                proof {
                    let ne = self.entries@;
                    assert(ne.drop_last() =~= old_entries);
                    assert forall|k: u16| k != motor_id implies self.motor_of(k) == old(self).motor_of(k) by {
                        assert(slot_of(ne, k) == slot_of(old_entries, k));
                        lemma_slot_of_bounds(old_entries, k);
                        if let Some(a) = slot_of(old_entries, k) {
                            assert(old_entries[a].1 < old_core.len());
                            assert(ne[a] == old_entries[a]);
                        }
                    }
                }
            },
        }
        Ok(())
    }

    /// The motor added under `motor_id`.
    pub fn get_motor(&self, motor_id: u16) -> (r: Result<&M, MotorError>)
        requires
            self.wf(),
        ensures
            match self.motor_of(motor_id) {
                Some(m) => r matches Ok(x) && *x == m,
                None => r matches Err(MotorError::InvalidArgument(e)) && e@ == not_found_text(
                    motor_id,
                ),
            },
    {
        let mut i: usize = 0;
        while i < self.entries.len()
            invariant
                self.wf(),
                i <= self.entries@.len(),
                forall|j: int| 0 <= j < i ==> self.entries@[j].0 != motor_id,
            decreases self.entries@.len() - i,
        {
            if self.entries[i].0 == motor_id {
                assert(self.entries@[i as int].1 < self.core.motors().len());
                proof {
                    lemma_slot_of_unique(self.entries@, motor_id, i as int);
                }
                return Ok(self.core.device(self.entries[i].1));
            }
            i = i + 1;
        }
        proof {
            lemma_slot_of_bounds(self.entries@, motor_id);
            if let Some(a) = slot_of(self.entries@, motor_id) {
                assert(self.entries@[a].0 == motor_id);
            }
        }
        let mut m = String::from_str("motor ");
        push_dec(&mut m, motor_id as u64);
        m.append(" not found");
        Err(MotorError::InvalidArgument(m))
    }

    /// How many motors can be looked up.
    pub fn motor_count(&self) -> (n: usize)
        ensures
            n == self.key_count(),
    {
        self.entries.len()
    }

    /// Drains the bus, handing each received frame to its motor (see
    /// `CoreController::poll_feedback_once`); the lookup is kept.
    pub fn poll_feedback_once(&mut self) -> (r: Result<(), MotorError>)
        requires
            old(self).wf(),
        ensures
            final(self).wf(),
            final(self).key_count() == old(self).key_count(),
            forall|k: u16|
                (#[trigger] final(self).motor_of(k) is Some) == (old(self).motor_of(k) is Some),
            same_motors(old(self).core_of().motors(), final(self).core_of().motors()),
            old(self).core_of().the_bus().calls().len() <= final(self).core_of().the_bus().calls().len(),
            final(self).core_of().the_bus().calls().subrange(
                0,
                old(self).core_of().the_bus().calls().len() as int,
            ) == old(self).core_of().the_bus().calls(),
            drained(
                final(self).core_of().the_bus().calls().subrange(
                    old(self).core_of().the_bus().calls().len() as int,
                    final(self).core_of().the_bus().calls().len() as int,
                ),
                r,
            ),
            final(self).core_of().the_bus().calls().last() matches BusCall::Recv(_, Ok(Some(f))) ==> {
                &&& route_of(old(self).core_of().motors(), f) matches Some(i)
                &&& final(self).core_of().motors()[i].feed_results().last() == r
            },
            old(self).core_of().the_bus().received().len()
                <= final(self).core_of().the_bus().received().len(),
            fed_with(
                old(self).core_of().motors(),
                final(self).core_of().motors(),
                final(self).core_of().the_bus().received().subrange(
                    old(self).core_of().the_bus().received().len() as int,
                    final(self).core_of().the_bus().received().len() as int,
                ),
            ),
    {
        let r = self.core.poll_feedback_once();
        proof {
            self.lemma_lookup_kept(*old(self));
        }
        r
    }

    /// Enables every motor in turn (see `CoreController::enable_all`).
    pub fn enable_all(&mut self) -> (r: Result<(), MotorError>)
        requires
            old(self).wf(),
        ensures
            final(self).wf(),
            final(self).key_count() == old(self).key_count(),
            forall|k: u16|
                (#[trigger] final(self).motor_of(k) is Some) == (old(self).motor_of(k) is Some),
            switched_in_turn(old(self).core_of().motors(), final(self).core_of().motors(), true, r),
    {
        let r = self.core.enable_all();
        proof {
            self.lemma_lookup_kept(*old(self));
        }
        r
    }

    /// Disables every motor in turn (see `CoreController::disable_all`).
    pub fn disable_all(&mut self) -> (r: Result<(), MotorError>)
        requires
            old(self).wf(),
        ensures
            final(self).wf(),
            final(self).key_count() == old(self).key_count(),
            forall|k: u16|
                (#[trigger] final(self).motor_of(k) is Some) == (old(self).motor_of(k) is Some),
            switched_in_turn(old(self).core_of().motors(), final(self).core_of().motors(), false, r),
    {
        let r = self.core.disable_all();
        proof {
            self.lemma_lookup_kept(*old(self));
        }
        r
    }

    /// Asks the motors to disable, then shuts the bus down (see `CoreController::shutdown`).
    pub fn shutdown(&mut self) -> (r: Result<(), MotorError>)
        requires
            old(self).wf(),
        ensures
            final(self).wf(),
            final(self).key_count() == old(self).key_count(),
            forall|k: u16|
                (#[trigger] final(self).motor_of(k) is Some) == (old(self).motor_of(k) is Some),
            exists|d: Result<(), MotorError>|
                switched_in_turn(old(self).core_of().motors(), final(self).core_of().motors(), false, d),
            final(self).core_of().the_bus().sent() == old(self).core_of().the_bus().sent(),
            final(self).core_of().the_bus().received() == old(self).core_of().the_bus().received(),
            final(self).core_of().the_bus().calls() == old(self).core_of().the_bus().calls().push(
                BusCall::Shutdown(r),
            ),
    {
        let r = self.core.shutdown();
        proof {
            self.lemma_lookup_kept(*old(self));
            let d = choose|d: Result<(), MotorError>|
                switched_in_turn(old(self).core.motors(), self.core.motors(), false, d);
            assert(switched_in_turn(old(self).core_of().motors(), self.core_of().motors(), false, d));
        }
        r
    }

    /// Shuts the bus down; the motors and their lookup are kept as they are.
    pub fn close_bus(&mut self) -> (r: Result<(), MotorError>)
        requires
            old(self).wf(),
        ensures
            final(self).wf(),
            final(self).key_count() == old(self).key_count(),
            forall|k: u16| final(self).motor_of(k) == old(self).motor_of(k),
            final(self).core_of().the_bus().calls() == old(self).core_of().the_bus().calls().push(
                BusCall::Shutdown(r),
            ),
    {
        self.core.close_bus()
    }

    /// With the same lookup entries and as many motors, a key has a motor before
    /// exactly when it has one after.
    proof fn lemma_lookup_kept(&self, before: Self)
        requires
            self.entries@ == before.entries@,
            self.core.motors().len() == before.core.motors().len(),
        ensures
            forall|k: u16| (#[trigger] self.motor_of(k) is Some) == (before.motor_of(k) is Some),
    {
    }
}

} // verus!
