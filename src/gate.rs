use vstd::prelude::*;

verus! {

/// The two scarce resources that calls are admitted to.
#[derive(Debug, Clone, Copy, PartialEq, Eq, Structural)]
pub enum PoolKind {
    Embedding,
    Inference,
}

/// A pool had no free slot.
#[derive(Debug, Clone, Copy, PartialEq, Eq, Structural)]
pub enum GateError {
    ResourceExhausted,
}

/// Whether an acquisition is admitted when `held` of `capacity` slots are taken.
pub open spec fn admits(capacity: nat, held: nat) -> bool {
    held < capacity
}

/// Slots taken after one acquisition attempt.
pub open spec fn held_after(capacity: nat, held: nat) -> nat {
    if admits(capacity, held) {
        held + 1
    } else {
        held
    }
}

/// Slots taken after `n` attempts without release, starting from `held`.
pub open spec fn held_after_attempts(capacity: nat, held: nat, n: nat) -> nat
    decreases n,
{
    if n == 0 {
        held
    } else {
        held_after(capacity, held_after_attempts(capacity, held, (n - 1) as nat))
    }
}

/// Whether the `i`-th of a run of attempts (counted from 0, without release) is admitted.
pub open spec fn attempt_admitted(capacity: nat, held: nat, i: nat) -> bool {
    admits(capacity, held_after_attempts(capacity, held, i))
}

/// A bounded pool of slots; never more than `capacity` are taken.
pub struct Pool {
    capacity: usize,
    in_flight: usize,
}

impl Pool {
    pub closed spec fn capacity_spec(&self) -> nat {
        self.capacity as nat
    }

    pub closed spec fn in_flight_spec(&self) -> nat {
        self.in_flight as nat
    }

    pub closed spec fn wf(&self) -> bool {
        self.in_flight <= self.capacity
    }

    pub fn new(capacity: usize) -> (r: Pool)
        ensures
            r.wf(),
            r.capacity_spec() == capacity,
            r.in_flight_spec() == 0,
    {
        Pool { capacity, in_flight: 0 }
    }

    pub fn capacity(&self) -> (r: usize)
        ensures
            r == self.capacity_spec(),
    {
        self.capacity
    }

    pub fn in_flight(&self) -> (r: usize)
        ensures
            r == self.in_flight_spec(),
    {
        self.in_flight
    }

    /// Takes a slot if one is free; fails at once otherwise.
    pub fn try_acquire(&mut self) -> (r: Result<(), GateError>)
        requires
            old(self).wf(),
        ensures
            final(self).wf(),
            final(self).capacity_spec() == old(self).capacity_spec(),
            r is Ok == admits(old(self).capacity_spec(), old(self).in_flight_spec()),
            r matches Err(e) ==> e == GateError::ResourceExhausted,
            r is Err ==> *final(self) == *old(self),
            final(self).in_flight_spec() == held_after(
                old(self).capacity_spec(),
                old(self).in_flight_spec(),
            ),
    {
        if self.in_flight < self.capacity {
            self.in_flight = self.in_flight + 1;
            Ok(())
        } else {
            Err(GateError::ResourceExhausted)
        }
    }

    /// Gives back a slot taken earlier.
    pub fn release(&mut self)
        requires
            old(self).wf(),
            old(self).in_flight_spec() > 0,
        ensures
            final(self).wf(),
            final(self).capacity_spec() == old(self).capacity_spec(),
            final(self).in_flight_spec() == old(self).in_flight_spec() - 1,
    {
        self.in_flight = self.in_flight - 1;
    }
}

/// Admission control for the two pools, sized once at construction.
pub struct Gate {
    embedding: Pool,
    inference: Pool,
}

impl Gate {
    pub closed spec fn pool(&self, kind: PoolKind) -> Pool {
        match kind {
            PoolKind::Embedding => self.embedding,
            PoolKind::Inference => self.inference,
        }
    }

    pub closed spec fn wf(&self) -> bool {
        self.embedding.wf() && self.inference.wf()
    }

    pub fn new(max_inference: usize, max_embedding: usize) -> (r: Gate)
        ensures
            r.wf(),
            r.pool(PoolKind::Inference).capacity_spec() == max_inference,
            r.pool(PoolKind::Embedding).capacity_spec() == max_embedding,
            r.pool(PoolKind::Inference).in_flight_spec() == 0,
            r.pool(PoolKind::Embedding).in_flight_spec() == 0,
    {
        Gate { embedding: Pool::new(max_embedding), inference: Pool::new(max_inference) }
    }

    /// In every valid state, no pool has more slots taken than its capacity.
    pub proof fn lemma_within_capacity(&self)
        requires
            self.wf(),
        ensures
            forall|k: PoolKind| #[trigger] self.pool(k).in_flight_spec() <= self.pool(k).capacity_spec(),
    {
        assert forall|k: PoolKind| #[trigger] self.pool(k).in_flight_spec() <= self.pool(k).capacity_spec() by {
            match k {
                PoolKind::Embedding => {},
                PoolKind::Inference => {},
            }
        }
    }

    pub fn in_flight(&self, kind: PoolKind) -> (r: usize)
        ensures
            r == self.pool(kind).in_flight_spec(),
    {
        match kind {
            PoolKind::Embedding => self.embedding.in_flight(),
            PoolKind::Inference => self.inference.in_flight(),
        }
    }

    pub fn try_acquire(&mut self, kind: PoolKind) -> (r: Result<(), GateError>)
        requires
            old(self).wf(),
        ensures
            final(self).wf(),
            r is Ok == admits(
                old(self).pool(kind).capacity_spec(),
                old(self).pool(kind).in_flight_spec(),
            ),
            r matches Err(e) ==> e == GateError::ResourceExhausted,
            r is Err ==> *final(self) == *old(self),
            final(self).pool(kind).capacity_spec() == old(self).pool(kind).capacity_spec(),
            final(self).pool(kind).in_flight_spec() == held_after(
                old(self).pool(kind).capacity_spec(),
                old(self).pool(kind).in_flight_spec(),
            ),
            forall|k: PoolKind| k != kind ==> final(self).pool(k) == old(self).pool(k),
    {
        match kind {
            PoolKind::Embedding => self.embedding.try_acquire(),
            PoolKind::Inference => self.inference.try_acquire(),
        }
    }

    pub fn release(&mut self, kind: PoolKind)
        requires
            old(self).wf(),
            old(self).pool(kind).in_flight_spec() > 0,
        ensures
            final(self).wf(),
            final(self).pool(kind).capacity_spec() == old(self).pool(kind).capacity_spec(),
            final(self).pool(kind).in_flight_spec() == old(self).pool(kind).in_flight_spec() - 1,
            forall|k: PoolKind| k != kind ==> final(self).pool(k) == old(self).pool(k),
    {
        match kind {
            PoolKind::Embedding => self.embedding.release(),
            PoolKind::Inference => self.inference.release(),
        }
    }
}

/// A pool never holds more than its capacity: however many attempts are made
/// from a state within capacity, the slots taken stay within capacity.
pub proof fn lemma_never_over_capacity(capacity: nat, held: nat, n: nat)
    requires
        held <= capacity,
    ensures
        held_after_attempts(capacity, held, n) <= capacity,
    decreases n,
{
    if n > 0 {
        lemma_never_over_capacity(capacity, held, (n - 1) as nat);
    }
}

/// Of any number of attempts made on an idle pool without release, exactly the
/// first `capacity` are admitted and every later one is refused.
pub proof fn lemma_first_capacity_admitted(capacity: nat, n: nat)
    ensures
        held_after_attempts(capacity, 0, n) == if n < capacity {
            n
        } else {
            capacity
        },
        forall|i: nat| i < n ==> (#[trigger] attempt_admitted(capacity, 0, i) <==> i < capacity),
    decreases n,
{
    if n > 0 {
        lemma_first_capacity_admitted(capacity, (n - 1) as nat);
        assert forall|i: nat| i < n implies (#[trigger] attempt_admitted(capacity, 0, i) <==> i
            < capacity) by {
            if i < n - 1 {
            } else {
                assert(i == n - 1);
            }
        }
    }
}

/// Releasing the slot of an admitted acquisition brings the pool back to where it was,
/// whether the holder succeeded or failed in between.
pub proof fn lemma_release_restores(capacity: nat, held: nat)
    requires
        admits(capacity, held),
    ensures
        held_after(capacity, held) > 0,
        held_after(capacity, held) - 1 == held,
{
}

} // verus!
