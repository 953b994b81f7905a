//! The happens-before visibility experiment.
//!
//! Two boolean flags `x` and `y` start unset; one producer sets each with a
//! release store.  Two observers each spin with acquire loads on their own
//! flag, then acquire-load the other flag once and, if they see it set,
//! bump a shared counter.  The counter is read at the end, after both
//! observers are done.
//!
//! The model makes each atomic access one step with a contract.  A load
//! may see a flag unset even after its producer has stored it — the store
//! need not be visible to this observer yet — but can never see it set
//! before the store: that is the one direction acquire/release promises.
//! The well-formedness predicate ties the counter to the observers' phases,
//! and [`lemma_final_count_bounded`] concludes the only guarantee the experiment
//! has: the final count is between zero and two.  Every value in that range
//! is genuinely reachable, each under its own interleaving of the steps.

use vstd::prelude::*;

verus! {

/// Where one observer stands: still spinning on its own flag, past the
/// spin but not yet done, or done having bumped the counter or not.
#[derive(Clone, Copy, PartialEq, Eq, Structural, Debug)]
pub enum ObserverPhase {
    Waiting,
    Passed,
    Bumped,
    Skipped,
}

/// How much one observer has added to the counter.
pub open spec fn contribution(p: ObserverPhase) -> int {
    match p {
        ObserverPhase::Bumped => 1,
        _ => 0,
    }
}

/// The shared state of the experiment: the two flags, the counter, and
/// the two observers.  The first observer spins on `x` and then checks
/// `y`; the second spins on `y` and then checks `x`.
pub struct Experiment {
    pub x_set: bool,
    pub y_set: bool,
    pub hits: u64,
    pub first: ObserverPhase,
    pub second: ObserverPhase,
}

impl Experiment {
    /// The counter counts exactly the observers that have bumped it.
    pub open spec fn wf(self) -> bool {
        self.hits == contribution(self.first) + contribution(self.second)
    }

    /// Both observers have finished.
    pub open spec fn done(self) -> bool {
        &&& self.first != ObserverPhase::Waiting
        &&& self.first != ObserverPhase::Passed
        &&& self.second != ObserverPhase::Waiting
        &&& self.second != ObserverPhase::Passed
    }

    /// The initial state: flags unset, counter zero, observers spinning.
    pub fn new() -> (e: Experiment)
        ensures
            e == (Experiment {
                x_set: false,
                y_set: false,
                hits: 0,
                first: ObserverPhase::Waiting,
                second: ObserverPhase::Waiting,
            }),
            e.wf(),
    {
        Experiment {
            x_set: false,
            y_set: false,
            hits: 0,
            first: ObserverPhase::Waiting,
            second: ObserverPhase::Waiting,
        }
    }

    /// The producer's release store of `x`.
    pub fn publish_x(&mut self)
        ensures
            *final(self) == (Experiment { x_set: true, ..*old(self) }),
    {
        self.x_set = true;
    }

    /// The producer's release store of `y`.
    pub fn publish_y(&mut self)
        ensures
            *final(self) == (Experiment { y_set: true, ..*old(self) }),
    {
        self.y_set = true;
    }

    /// The first observer's spin loop ends: an acquire load of `x` saw it
    /// set, which can only happen after the producer's release store.
    pub fn first_pass(&mut self)
        requires
            old(self).first == ObserverPhase::Waiting,
            old(self).x_set,
        ensures
            *final(self) == (Experiment { first: ObserverPhase::Passed, ..*old(self) }),
    {
        self.first = ObserverPhase::Passed;
    }

    /// The first observer's single acquire load of the other flag, `y`.
    /// `sees_other` is what the load returned: it may be false even when
    /// `y` has been stored — the store need not be visible here yet — but
    /// can be true only if it has.  On true the observer bumps the counter.
    pub fn first_check(&mut self, sees_other: bool)
        requires
            old(self).wf(),
            old(self).first == ObserverPhase::Passed,
            sees_other ==> old(self).y_set,
        ensures
            final(self).wf(),
            *final(self) == (Experiment {
                first: if sees_other {
                    ObserverPhase::Bumped
                } else {
                    ObserverPhase::Skipped
                },
                hits: if sees_other {
                    (old(self).hits + 1) as u64
                } else {
                    old(self).hits
                },
                ..*old(self)
            }),
    {
        if sees_other {
            self.hits = self.hits + 1;
            self.first = ObserverPhase::Bumped;
        } else {
            self.first = ObserverPhase::Skipped;
        }
    }

    /// The second observer's spin loop ends: an acquire load of `y` saw it
    /// set, which can only happen after the producer's release store.
    pub fn second_pass(&mut self)
        requires
            old(self).second == ObserverPhase::Waiting,
            old(self).y_set,
        ensures
            *final(self) == (Experiment { second: ObserverPhase::Passed, ..*old(self) }),
    {
        self.second = ObserverPhase::Passed;
    }

    /// The second observer's single acquire load of the other flag, `x`,
    /// under the same visibility rule as [`Experiment::first_check`].
    pub fn second_check(&mut self, sees_other: bool)
        requires
            old(self).wf(),
            old(self).second == ObserverPhase::Passed,
            sees_other ==> old(self).x_set,
        ensures
            final(self).wf(),
            *final(self) == (Experiment {
                second: if sees_other {
                    ObserverPhase::Bumped
                } else {
                    ObserverPhase::Skipped
                },
                hits: if sees_other {
                    (old(self).hits + 1) as u64
                } else {
                    old(self).hits
                },
                ..*old(self)
            }),
    {
        if sees_other {
            self.hits = self.hits + 1;
            self.second = ObserverPhase::Bumped;
        } else {
            self.second = ObserverPhase::Skipped;
        }
    }

    /// The final read of the counter, made with the strongest ordering
    /// purely for the observer's sake.
    pub fn outcome(&self) -> (z: u64)
        ensures
            z == self.hits,
    {
        self.hits
    }
}

/// The only guarantee the experiment gives about the counter: read after
/// both observers are done, it holds the number of observers that bumped
/// it, so it is never negative — it is a count — and never exceeds two.
/// Zero, one and two are all reachable, each under its own interleaving;
/// nothing here pins the value further.
pub proof fn lemma_final_count_bounded(e: Experiment)
    requires
        e.wf(),
        e.done(),
    ensures
        e.hits <= 2,
        e.hits == contribution(e.first) + contribution(e.second),
{
}

} // verus!
