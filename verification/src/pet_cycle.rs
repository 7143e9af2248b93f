//! The pet cycle: every `interval` seconds, the pet is hidden and called back
//! by two taps of its key, 300 ms apart; a stop request is honoured within a
//! second.

use vstd::prelude::*;

verus! {

/// The key that hides and calls the pet (A).
pub const PET_VK: u16 = 0x41;

/// The pause between hiding and calling the pet, in milliseconds.
pub const PET_PAUSE_MS: u64 = 300;

/// What the pet cycle does next.
#[derive(Clone, Copy, Debug, PartialEq, Eq, Structural)]
pub enum PetAction {
    /// It was asked to stop.
    Stop,
    /// It sleeps one second of its interval.
    SleepSecond,
    /// It taps the key, waits the pause, and taps it again.
    HideAndCall,
}

/// The step of a cycle that has slept `slept` of its `interval` seconds: the
/// next count and the action.
pub open spec fn pet_next(interval: nat, slept: nat, cancelled: bool) -> (nat, PetAction) {
    if cancelled {
        (slept, PetAction::Stop)
    } else if slept < interval {
        (slept + 1, PetAction::SleepSecond)
    } else {
        (0, PetAction::HideAndCall)
    }
}

/// The actions of `n` steps without a stop request.
pub open spec fn pet_run(interval: nat, slept: nat, n: nat) -> Seq<PetAction>
    decreases n,
{
    if n == 0 {
        Seq::empty()
    } else {
        let (next, action) = pet_next(interval, slept, false);
        seq![action] + pet_run(interval, next, (n - 1) as nat)
    }
}

/// The count of seconds after `n` steps without a stop request.
pub open spec fn pet_slept_after(interval: nat, slept: nat, n: nat) -> nat
    decreases n,
{
    if n == 0 {
        slept
    } else {
        pet_slept_after(interval, pet_next(interval, slept, false).0, (n - 1) as nat)
    }
}

/// A running pet cycle.
pub struct PetCycle {
    interval: u64,
    slept: u64,
}

impl PetCycle {
    pub closed spec fn interval(&self) -> nat {
        self.interval as nat
    }

    pub closed spec fn slept(&self) -> nat {
        self.slept as nat
    }

    pub open spec fn wf(&self) -> bool {
        self.slept() <= self.interval()
    }

    /// A cycle of `interval_secs` seconds, at its start.
    pub fn new(interval_secs: u64) -> (c: Self)
        ensures
            c.wf(),
            c.interval() == interval_secs,
            c.slept() == 0,
    {
        PetCycle { interval: interval_secs, slept: 0 }
    }

    /// One step: a stop request ends the cycle; else the next second of the
    /// interval is slept, or, once all are, the pet is hidden and called.
    pub fn step(&mut self, cancelled: bool) -> (a: PetAction)
        requires
            old(self).wf(),
        ensures
            final(self).wf(),
            final(self).interval() == old(self).interval(),
            (final(self).slept(), a) == pet_next(old(self).interval(), old(self).slept(), cancelled),
    {
        if cancelled {
            PetAction::Stop
        } else if self.slept < self.interval {
            self.slept = self.slept + 1;
            PetAction::SleepSecond
        } else {
            self.slept = 0;
            PetAction::HideAndCall
        }
    }
}

proof fn lemma_pet_run_from(interval: nat, slept: nat)
    requires
        slept <= interval,
    ensures
        pet_run(interval, slept, (interval - slept + 1) as nat) == Seq::new(
            (interval - slept) as nat,
            |i: int| PetAction::SleepSecond,
        ).push(PetAction::HideAndCall),
        pet_slept_after(interval, slept, (interval - slept + 1) as nat) == 0,
    decreases interval - slept,
{
    let n = (interval - slept + 1) as nat;
    if slept == interval {
        assert(pet_run(interval, 0, 0) == Seq::<PetAction>::empty());
        assert(pet_run(interval, slept, 1) == seq![PetAction::HideAndCall] + pet_run(interval, 0, 0));
        assert(pet_run(interval, slept, 1) =~= seq![PetAction::HideAndCall]);
        assert(pet_slept_after(interval, 0, 0) == 0);
        assert(pet_slept_after(interval, slept, 1) == pet_slept_after(interval, 0, 0));
    } else {
        lemma_pet_run_from(interval, slept + 1);
        assert(pet_slept_after(interval, slept, n) == pet_slept_after(
            interval,
            slept + 1,
            (n - 1) as nat,
        ));
        assert(pet_run(interval, slept, n) == seq![PetAction::SleepSecond] + pet_run(
            interval,
            slept + 1,
            (n - 1) as nat,
        ));
        assert(pet_run(interval, slept, n) =~= Seq::new(
            (interval - slept) as nat,
            |i: int| PetAction::SleepSecond,
        ).push(PetAction::HideAndCall));
    }
}

/// Without a stop request, a cycle from its start sleeps exactly `interval`
/// seconds, then hides and calls the pet once, and is back at its start.
pub proof fn lemma_one_call_per_interval(interval: nat)
    ensures
        pet_run(interval, 0, interval + 1) == Seq::new(interval, |i: int| PetAction::SleepSecond).push(
            PetAction::HideAndCall,
        ),
        pet_slept_after(interval, 0, interval + 1) == 0,
{
    lemma_pet_run_from(interval, 0);
}

/// A stop request is honoured at the very next step, whatever part of the
/// interval was slept: the cycle stops without sleeping on or calling the pet.
pub proof fn lemma_stop_is_immediate(interval: nat, slept: nat)
    ensures
        pet_next(interval, slept, true).1 == PetAction::Stop,
{
}

} // verus!
