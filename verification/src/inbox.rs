//! The hand-off between the tasks and the driver: what a task asks of the
//! store is queued here as an intent, and the driver takes the queue over at
//! the start of each cycle.
//!
//! Whoever shares an inbox between threads guards it with a lock; the lock is
//! held for one call of this module at a time.

use crate::store::{deadline_of, Intent};
use vstd::prelude::*;

verus! {

/// Whether the driver has to be woken for an intent: it brings a deadline that
/// comes before the instant the driver sleeps until, or the driver sleeps
/// without a limit.
pub open spec fn wants_wake<W>(sleep_target: Option<u64>, intent: Intent<W>) -> bool {
    match deadline_of(intent) {
        Some(deadline) => match sleep_target {
            Some(target) => deadline < target,
            None => true,
        },
        None => false,
    }
}

/// What an inbox holds.
pub struct InboxState<W> {
    /// The queued intents, oldest first.
    pub pending: Seq<Intent<W>>,
    /// How many identities have been given out.
    pub issued: nat,
    /// The instant the driver sleeps until, as it last made it known; `None`
    /// where it sleeps until woken.
    pub sleep_target: Option<u64>,
    /// Whether the driver has to be woken for something queued since the
    /// question was last asked.
    pub wake: bool,
}

/// The inbox after `intent` has been queued.
pub open spec fn submitted<W>(st: InboxState<W>, intent: Intent<W>) -> InboxState<W> {
    InboxState {
        pending: st.pending.push(intent),
        wake: st.wake || wants_wake(st.sleep_target, intent),
        ..st
    }
}

/// The inbox after a new wake request has been queued under the next
/// identity.
pub open spec fn registered<W>(st: InboxState<W>, deadline: u64, signal: W) -> InboxState<W> {
    InboxState {
        issued: st.issued + 1,
        ..submitted(st, Intent::Insert { id: st.issued as u64, deadline, signal })
    }
}

/// No identity is given out twice: of two wake requests queued one after
/// the other, the second gets the identity after the first one's, and both
/// stand in the queue in the order in which they were made.
pub proof fn lemma_identities_are_fresh<W>(
    st: InboxState<W>,
    first: (u64, W),
    second: (u64, W),
)
    requires
        st.issued + 1 < u64::MAX,
    ensures
        registered(registered(st, first.0, first.1), second.0, second.1).issued == st.issued + 2,
        registered(registered(st, first.0, first.1), second.0, second.1).pending
            == st.pending.push(
            Intent::Insert { id: st.issued as u64, deadline: first.0, signal: first.1 },
        ).push(
            Intent::Insert { id: (st.issued + 1) as u64, deadline: second.0, signal: second.1 },
        ),
{
}

/// The queue of intents that the driver has not taken over yet, the counter
/// that identities come from, and the instant the driver last said it would
/// sleep until.
pub struct Inbox<W> {
    pending: Vec<Intent<W>>,
    next_id: u64,
    sleep_target: Option<u64>,
    wake: bool,
}

impl<W> View for Inbox<W> {
    type V = InboxState<W>;

    closed spec fn view(&self) -> InboxState<W> {
        InboxState {
            pending: self.pending@,
            issued: self.next_id as nat,
            sleep_target: self.sleep_target,
            wake: self.wake,
        }
    }
}

impl<W> Inbox<W> {
    /// An inbox with nothing queued and no identity given out, for a driver
    /// that sleeps until woken.
    pub fn new() -> (inbox: Self)
        ensures
            inbox@ == (InboxState::<W> {
                pending: Seq::empty(),
                issued: 0,
                sleep_target: None,
                wake: false,
            }),
    {
        Inbox { pending: Vec::new(), next_id: 0, sleep_target: None, wake: false }
    }

    /// The number of queued intents.
    pub fn len(&self) -> (n: usize)
        ensures
            n == self@.pending.len(),
    {
        self.pending.len()
    }

    /// Whether nothing is queued.
    pub fn is_empty(&self) -> (empty: bool)
        ensures
            empty == (self@.pending.len() == 0),
    {
        self.pending.len() == 0
    }

    /// How many identities have been given out.
    pub fn issued(&self) -> (n: u64)
        ensures
            n == self@.issued,
    {
        self.next_id
    }

    /// The instant the driver sleeps until, as it last made it known; `None`
    /// where it sleeps until woken.
    pub fn sleep_target(&self) -> (target: Option<u64>)
        ensures
            target == self@.sleep_target,
    {
        self.sleep_target
    }

    /// Whether another identity can be given out.
    pub fn can_register(&self) -> (free: bool)
        ensures
            free == (self@.issued < u64::MAX),
    {
        self.next_id < u64::MAX
    }

    /// Queues an intent behind those already queued, and notes whether the
    /// driver has to be woken for it.
    pub fn submit(&mut self, intent: Intent<W>)
        ensures
            final(self)@ == submitted(old(self)@, intent),
    {
        let wake = match &intent {
            Intent::Insert { deadline, .. } => self.comes_before_target(*deadline),
            Intent::Reset { deadline, .. } => self.comes_before_target(*deadline),
            Intent::Rewake { .. } => false,
            Intent::Cancel { .. } => false,
        };
        if wake {
            self.wake = true;
        }
        self.pending.push(intent);
    }

    /// Whether `deadline` comes before the instant the driver sleeps until.
    fn comes_before_target(&self, deadline: u64) -> (before: bool)
        ensures
            before == match self@.sleep_target {
                Some(target) => deadline < target,
                None => true,
            },
    {
        match self.sleep_target {
            Some(target) => deadline < target,
            None => true,
        }
    }

    /// Queues a new wake request under an identity that no request had
    /// before, and returns the identity.
    pub fn register(&mut self, deadline: u64, signal: W) -> (id: u64)
        requires
            old(self)@.issued < u64::MAX,
        ensures
            id == old(self)@.issued,
            final(self)@ == registered(old(self)@, deadline, signal),
    {
        let id = self.next_id;
        self.next_id = id + 1;
        self.submit(Intent::Insert { id, deadline, signal });
        id
    }

    /// Says whether the driver has to be woken for what was queued since this
    /// was last asked. Whoever gets `true` wakes the driver.
    pub fn take_wake(&mut self) -> (wake: bool)
        ensures
            wake == old(self)@.wake,
            final(self)@ == (InboxState { wake: false, ..old(self)@ }),
    {
        let wake = self.wake;
        self.wake = false;
        wake
    }

    /// Hands over everything that is queued, oldest first, and leaves the
    /// queue empty.
    pub fn take_all(&mut self) -> (intents: Vec<Intent<W>>)
        ensures
            intents@ == old(self)@.pending,
            final(self)@ == (InboxState { pending: Seq::empty(), ..old(self)@ }),
    {
        let mut intents: Vec<Intent<W>> = Vec::new();
        std::mem::swap(&mut self.pending, &mut intents);
        intents
    }

    /// Makes known the instant the driver is about to sleep until.
    pub fn set_sleep_target(&mut self, target: Option<u64>)
        ensures
            final(self)@ == (InboxState { sleep_target: target, ..old(self)@ }),
    {
        self.sleep_target = target;
    }
}

} // verus!
