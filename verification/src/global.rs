//! The driver: the one thread that carries intents into the store, fires what
//! is due and sleeps until the next deadline; and the bookkeeping of whoever
//! owns that thread.
//!
//! The thread itself, its parking and the invoking of wake signals belong to
//! the caller. Here is what the thread decides in each cycle: drain, then
//! fire, then sleep.

use crate::inbox::{Inbox, InboxState};
use crate::store::{applied_all, distinct_ids, sorted, DeadlineStore, Intent, Registration};
use vstd::prelude::*;

verus! {

/// Where the driver stands in its cycle.
#[derive(Clone, Copy, Debug, PartialEq, Eq, Structural)]
pub enum DriverState {
    /// About to carry the queued intents into the store.
    Draining,
    /// About to fire what is due.
    Firing,
    /// About to decide how long to sleep.
    Sleeping,
    /// Done: the thread exits.
    ShutDown,
}

/// What the driver's thread does before the next cycle.
#[derive(Clone, Copy, Debug, PartialEq, Eq, Structural)]
pub enum Park {
    /// Go on at once.
    No,
    /// Suspend for this many ticks, or until woken.
    For(u64),
    /// Suspend until woken.
    UntilWoken,
    /// Leave the loop.
    Exit,
}

/// How long to sleep at `now` with `earliest` the first pending deadline,
/// where `waiting` says that intents were queued in the meantime.
pub open spec fn park_for(earliest: Option<u64>, now: u64, waiting: bool) -> Park {
    if waiting {
        Park::No
    } else {
        match earliest {
            Some(deadline) => if now < deadline {
                Park::For((deadline - now) as u64)
            } else {
                Park::No
            },
            None => Park::UntilWoken,
        }
    }
}

/// The first deadline of the pending requests `s`.
pub open spec fn earliest_of<W>(s: Seq<Registration<W>>) -> Option<u64> {
    if s.len() == 0 {
        None
    } else {
        Some(s[0].deadline)
    }
}

/// The driver never sleeps past a request that is due. Where it sleeps for a
/// time, no pending request is due yet and the time ends at the first
/// deadline, which none comes before; where it sleeps without limit, nothing
/// is pending; and it does not sleep at all while intents wait in the inbox.
pub proof fn lemma_sleep_ends_at_first_deadline<W>(
    s: Seq<Registration<W>>,
    now: u64,
    waiting: bool,
)
    requires
        sorted(s),
    ensures
        waiting ==> park_for(earliest_of(s), now, waiting) == Park::No,
        park_for(earliest_of(s), now, waiting) is For ==> s.len() > 0 && now + park_for(
            earliest_of(s),
            now,
            waiting,
        )->For_0 == s[0].deadline && forall|i: int| 0 <= i < s.len() ==> s[i].deadline > now,
        park_for(earliest_of(s), now, waiting) == Park::UntilWoken ==> s.len() == 0,
        !waiting && s.len() > 0 && s[0].deadline <= now ==> park_for(earliest_of(s), now, waiting)
            == Park::No,
{
}

/// The store and the place in the cycle.
pub struct Driver<W> {
    store: DeadlineStore<W>,
    state: DriverState,
}

impl<W> Driver<W> {
    /// The pending requests, in the order in which they will fire.
    pub closed spec fn pending(&self) -> Seq<Registration<W>> {
        self.store@
    }

    /// Where the driver stands in its cycle.
    pub closed spec fn phase(&self) -> DriverState {
        self.state
    }

    /// The pending requests are in deadline order and no identity occurs
    /// twice.
    pub open spec fn wf(&self) -> bool {
        sorted(self.pending()) && distinct_ids(self.pending())
    }

    /// A driver with nothing pending, about to drain.
    pub fn new() -> (driver: Self)
        ensures
            driver.wf(),
            driver.pending() == Seq::<Registration<W>>::empty(),
            driver.phase() == DriverState::Draining,
    {
        Driver { store: DeadlineStore::new(), state: DriverState::Draining }
    }

    /// Where the driver stands in its cycle.
    pub fn state(&self) -> (state: DriverState)
        ensures
            state == self.phase(),
    {
        self.state
    }

    /// The number of pending requests.
    pub fn len(&self) -> (n: usize)
        ensures
            n == self.pending().len(),
    {
        self.store.len()
    }

    /// The first pending deadline.
    pub fn next_event(&self) -> (earliest: Option<u64>)
        requires
            self.wf(),
        ensures
            earliest == earliest_of(self.pending()),
    {
        self.store.earliest_deadline()
    }

    /// Carries the intents taken from the inbox into the store, first to
    /// last, and goes on to firing.
    pub fn drain(&mut self, intents: Vec<Intent<W>>)
        requires
            old(self).wf(),
            old(self).phase() == DriverState::Draining,
        ensures
            final(self).wf(),
            final(self).pending() == applied_all(old(self).pending(), intents@),
            final(self).phase() == DriverState::Firing,
    {
        self.store.apply_all(intents);
        self.state = DriverState::Firing;
    }

    /// Takes out every request that is due at `now`, earliest first, and goes
    /// on to sleeping. The caller invokes the signal of each request handed
    /// back, once.
    pub fn fire(&mut self, now: u64) -> (fired: Vec<Registration<W>>)
        requires
            old(self).wf(),
            old(self).phase() == DriverState::Firing,
        ensures
            final(self).wf(),
            old(self).pending() == fired@ + final(self).pending(),
            forall|i: int| 0 <= i < fired@.len() ==> fired@[i].deadline <= now,
            forall|i: int|
                0 <= i < final(self).pending().len() ==> final(self).pending()[i].deadline > now,
            final(self).phase() == DriverState::Sleeping,
    {
        let fired = self.store.drain_ready(now);
        self.state = DriverState::Sleeping;
        fired
    }

    /// Decides how the thread waits for the next cycle.
    ///
    /// On `shutdown` the driver is done. Otherwise it makes its first pending
    /// deadline known to the inbox and goes back to draining: at once if
    /// intents were queued since it drained or the deadline has come, after a
    /// sleep until the deadline if there is one, after a sleep without limit
    /// if nothing is pending.
    pub fn sleep(&mut self, now: u64, shutdown: bool, inbox: &mut Inbox<W>) -> (park: Park)
        requires
            old(self).wf(),
            old(self).phase() == DriverState::Sleeping,
        ensures
            final(self).wf(),
            final(self).pending() == old(self).pending(),
            shutdown ==> park == Park::Exit && final(self).phase() == DriverState::ShutDown
                && final(inbox)@ == old(inbox)@,
            !shutdown ==> park == park_for(
                earliest_of(old(self).pending()),
                now,
                old(inbox)@.pending.len() > 0,
            ) && final(self).phase() == DriverState::Draining && final(inbox)@ == (InboxState {
                sleep_target: earliest_of(old(self).pending()),
                ..old(inbox)@
            }),
    {
        if shutdown {
            self.state = DriverState::ShutDown;
            return Park::Exit;
        }
        let earliest = self.store.earliest_deadline();
        inbox.set_sleep_target(earliest);
        self.state = DriverState::Draining;
        if !inbox.is_empty() {
            return Park::No;
        }
        match earliest {
            Some(deadline) => if now < deadline {
                Park::For(deadline - now)
            } else {
                Park::No
            },
            None => Park::UntilWoken,
        }
    }
}

/// What is owed to the driver's thread when its owner goes away.
#[derive(Clone, Copy, Debug, PartialEq, Eq, Structural)]
pub enum Teardown {
    /// Ask the thread to shut down, wake it, and wait until it has exited.
    SignalAndJoin,
    /// Nothing: the thread was let go, or has been waited for.
    Nothing,
}

/// The owner's side of the driver's thread: whether it still has to be
/// waited for.
#[derive(Debug)]
pub struct HelperThread {
    attached: bool,
}

impl HelperThread {
    /// Whether the owner still has to wait for the thread.
    pub closed spec fn attached(&self) -> bool {
        self.attached
    }

    /// The owner of a thread that has just been started.
    pub fn new() -> (owner: HelperThread)
        ensures
            owner.attached(),
    {
        HelperThread { attached: true }
    }

    /// Whether the owner still has to wait for the thread.
    pub fn is_attached(&self) -> (attached: bool)
        ensures
            attached == self.attached(),
    {
        self.attached
    }

    /// Lets the thread go: it runs on, and nobody waits for it.
    pub fn forget(&mut self)
        ensures
            !final(self).attached(),
    {
        self.attached = false;
    }

    /// What the owner does for the thread when it goes away: a thread that was
    /// not let go is asked to shut down and waited for, once.
    pub fn shutdown(&mut self) -> (owed: Teardown)
        ensures
            !final(self).attached(),
            owed == (if old(self).attached() {
                Teardown::SignalAndJoin
            } else {
                Teardown::Nothing
            }),
    {
        if self.attached {
            self.attached = false;
            Teardown::SignalAndJoin
        } else {
            Teardown::Nothing
        }
    }
}

} // verus!
