//! The run and cancel flags of a background worker (the burst, the pet
//! cycle, the HP monitor): at most one run at a time, and a stop request only
//! while one is running.

use vstd::prelude::*;

verus! {

/// Whether a worker runs, and whether it was asked to stop.
#[derive(Clone, Copy, Debug, PartialEq, Eq, Structural)]
pub struct WorkerFlags {
    pub active: bool,
    pub cancel: bool,
}

impl WorkerFlags {
    /// No worker runs.
    pub fn new() -> (f: Self)
        ensures
            !f.active,
            !f.cancel,
    {
        WorkerFlags { active: false, cancel: false }
    }

    /// Start a run unless one is running; says whether the caller is to spawn
    /// the worker.
    pub fn start(&mut self) -> (spawn: bool)
        ensures
            spawn == !old(self).active,
            spawn ==> *final(self) == (WorkerFlags { active: true, cancel: false }),
            !spawn ==> *final(self) == *old(self),
    {
        if self.active {
            return false;
        }
        self.cancel = false;
        self.active = true;
        true
    }

    /// Ask a running worker to stop; nothing if none runs.
    pub fn stop(&mut self)
        ensures
            final(self).active == old(self).active,
            final(self).cancel == (old(self).cancel || old(self).active),
    {
        if self.active {
            self.cancel = true;
        }
    }

    /// Stop a running worker, or start one; says whether the caller is to
    /// spawn the worker.
    pub fn toggle(&mut self) -> (spawn: bool)
        ensures
            spawn == !old(self).active,
            spawn ==> *final(self) == (WorkerFlags { active: true, cancel: false }),
            !spawn ==> *final(self) == (WorkerFlags { active: true, cancel: true }),
    {
        if self.active {
            self.stop();
            false
        } else {
            self.start()
        }
    }

    /// The worker has ended its run.
    pub fn finished(&mut self)
        ensures
            !final(self).active,
            final(self).cancel == old(self).cancel,
    {
        self.active = false;
    }
}

} // verus!
