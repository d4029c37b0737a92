//! The single-shot timer: what a task polls to learn whether an instant has
//! come.
//!
//! A timer enters the store only when it is polled before its deadline. It
//! keeps no reference into the store, only the identity of its request, and
//! every arming gets an identity of its own: what was asked under an earlier
//! one can no longer wake anybody once its cancellation has been carried out.

use crate::inbox::{registered, submitted, Inbox, InboxState};
use crate::store::{
    applied_all, distinct_ids, due, holds_id, id_of, lemma_applied_all_keeps_order,
    lemma_cancelled_never_fires, sorted, Intent, Registration,
};
use vstd::prelude::*;

verus! {

/// What polling found.
#[derive(Debug, PartialEq, Eq)]
pub enum Polled<T> {
    /// The awaited thing is there.
    Ready(T),
    /// Not yet: the caller will be woken.
    Pending,
}

/// What a timer holds.
pub struct DelayState {
    /// The instant the timer waits for.
    pub deadline: u64,
    /// The identity of its pending request, once it is armed.
    pub registration: Option<u64>,
    /// Whether a poll has seen the deadline come.
    pub fired: bool,
}

/// The timer after it has been set to wait for `at`: not armed, not fired.
pub open spec fn rearmed(at: u64) -> DelayState {
    DelayState { deadline: at, registration: None, fired: false }
}

/// The timer after a poll at `now`, where `next_id` is the identity that the
/// inbox gives out next.
pub open spec fn polled_timer(st: DelayState, now: u64, next_id: nat) -> DelayState {
    if st.deadline <= now {
        DelayState { fired: true, ..st }
    } else if st.registration is None {
        DelayState { registration: Some(next_id as u64), ..st }
    } else {
        st
    }
}

/// The inbox after a poll at `now` by a task that is woken through `signal`.
/// `moved` says that this is not the signal that the task gave at its last
/// poll.
pub open spec fn polled_inbox<W>(
    st: DelayState,
    inbox: InboxState<W>,
    now: u64,
    signal: W,
    moved: bool,
) -> InboxState<W> {
    if st.deadline <= now {
        inbox
    } else {
        match st.registration {
            None => registered(inbox, st.deadline, signal),
            Some(id) => if moved {
                submitted(inbox, Intent::Rewake { id, signal })
            } else {
                inbox
            },
        }
    }
}

/// The inbox after a timer has given up its pending request, if it had one.
pub open spec fn released_inbox<W>(st: DelayState, inbox: InboxState<W>) -> InboxState<W> {
    match st.registration {
        Some(id) => submitted(inbox, Intent::Cancel { id }),
        None => inbox,
    }
}

/// The timer and the inbox after the timer has been set to wait for each
/// instant of `ats`, one after the other.
pub open spec fn reset_all<W>(st: DelayState, inbox: InboxState<W>, ats: Seq<u64>) -> (
    DelayState,
    InboxState<W>,
)
    decreases ats.len(),
{
    if ats.len() == 0 {
        (st, inbox)
    } else {
        let before = reset_all(st, inbox, ats.drop_last());
        (rearmed(ats.last()), released_inbox(before.0, before.1))
    }
}

/// A timer made for an instant that has come is ready at its first poll, and
/// nothing is asked of the engine: the inbox is as it was.
pub proof fn lemma_past_deadline_is_ready_at_once<W>(
    at: u64,
    now: u64,
    inbox: InboxState<W>,
    signal: W,
    moved: bool,
)
    requires
        at <= now,
    ensures
        polled_timer(rearmed(at), now, inbox.issued) == (DelayState { fired: true, ..rearmed(at) }),
        polled_inbox(rearmed(at), inbox, now, signal, moved) == inbox,
{
}

/// However often a timer is set anew before it is polled, only the instant
/// set last counts: the timer waits for it, nothing was queued for the
/// instants before, and the first poll asks for the last one alone.
pub proof fn lemma_resets_before_poll_collapse<W>(
    st: DelayState,
    inbox: InboxState<W>,
    ats: Seq<u64>,
    now: u64,
    signal: W,
    moved: bool,
)
    requires
        st.registration is None,
        ats.len() > 0,
    ensures
        reset_all(st, inbox, ats) == (rearmed(ats.last()), inbox),
        polled_inbox(reset_all(st, inbox, ats).0, reset_all(st, inbox, ats).1, now, signal, moved)
            == (if ats.last() <= now {
            inbox
        } else {
            registered(inbox, ats.last(), signal)
        }),
    decreases ats.len(),
{
    if ats.len() > 1 {
        lemma_resets_before_poll_collapse(st, inbox, ats.drop_last(), now, signal, moved);
    } else {
        assert(reset_all(st, inbox, ats.drop_last()) == (st, inbox));
    }
}

/// An armed timer that is given up is never woken afterwards. Its
/// cancellation is queued last; once the driver has drained the queue, the
/// timer's request is not pending, and whatever intents follow, it neither
/// comes back nor fires, as long as none of them inserts a request under its
/// identity (the inbox gives no identity out twice).
pub proof fn lemma_released_timer_never_wakes<W>(
    st: DelayState,
    inbox: InboxState<W>,
    s: Seq<Registration<W>>,
    later: Seq<Intent<W>>,
    now: u64,
)
    requires
        st.registration is Some,
        sorted(s),
        distinct_ids(s),
        forall|k: int|
            0 <= k < later.len() ==> !(later[k] is Insert && id_of(later[k])
                == st.registration->0),
    ensures
        !holds_id(applied_all(s, released_inbox(st, inbox).pending), st.registration->0),
        !holds_id(
            applied_all(applied_all(s, released_inbox(st, inbox).pending), later),
            st.registration->0,
        ),
        !holds_id(
            due(applied_all(applied_all(s, released_inbox(st, inbox).pending), later), now),
            st.registration->0,
        ),
{
    let id = st.registration->0;
    let queue = released_inbox(st, inbox).pending;
    assert(queue.drop_last() =~= inbox.pending);
    assert(queue.last() == Intent::<W>::Cancel { id });
    lemma_applied_all_keeps_order(s, inbox.pending);
    lemma_cancelled_never_fires(applied_all(s, inbox.pending), id, later, now);
}

/// A timer that becomes ready once and can be set again.
#[derive(Debug)]
pub struct Delay {
    deadline: u64,
    registration: Option<u64>,
    fired: bool,
}

impl View for Delay {
    type V = DelayState;

    closed spec fn view(&self) -> DelayState {
        DelayState { deadline: self.deadline, registration: self.registration, fired: self.fired }
    }
}

impl Delay {
    /// A timer that waits for the instant `at`. Nothing is asked of the
    /// engine before the first poll.
    pub fn new_at(at: u64) -> (timer: Delay)
        ensures
            timer@ == rearmed(at),
    {
        Delay { deadline: at, registration: None, fired: false }
    }

    /// A timer that waits for `dur` ticks from `now`.
    pub fn new(now: u64, dur: u64) -> (timer: Delay)
        requires
            now + dur <= u64::MAX,
        ensures
            timer@ == rearmed((now + dur) as u64),
    {
        Delay::new_at(now + dur)
    }

    /// The instant the timer waits for.
    pub fn deadline(&self) -> (at: u64)
        ensures
            at == self@.deadline,
    {
        self.deadline
    }

    /// The identity of the timer's pending request, once it is armed.
    pub fn registration(&self) -> (id: Option<u64>)
        ensures
            id == self@.registration,
    {
        self.registration
    }

    /// Whether a poll has seen the deadline come.
    pub fn is_fired(&self) -> (fired: bool)
        ensures
            fired == self@.fired,
    {
        self.fired
    }

    /// Asks whether the deadline has come at `now`.
    ///
    /// If it has, the timer is ready and nothing is asked of the engine.
    /// Otherwise the timer is pending: on its first such poll it queues a
    /// wake request for `signal`; later, if `moved` says that the task is now
    /// woken through another signal than before, it queues the new one.
    pub fn poll<W>(&mut self, now: u64, signal: W, moved: bool, inbox: &mut Inbox<W>) -> (out:
        Polled<()>)
        requires
            old(self)@.deadline > now && old(self)@.registration is None ==> old(inbox)@.issued
                < u64::MAX,
        ensures
            out == (if old(self)@.deadline <= now {
                Polled::Ready(())
            } else {
                Polled::Pending
            }),
            final(self)@ == polled_timer(old(self)@, now, old(inbox)@.issued),
            final(inbox)@ == polled_inbox(old(self)@, old(inbox)@, now, signal, moved),
            old(self)@.deadline <= now ==> final(inbox)@ == old(inbox)@,
    {
        if self.deadline <= now {
            self.fired = true;
            return Polled::Ready(());
        }
        match self.registration {
            None => {
                let id = inbox.register(self.deadline, signal);
                self.registration = Some(id);
            },
            Some(id) => {
                if moved {
                    inbox.submit(Intent::Rewake { id, signal });
                }
            },
        }
        Polled::Pending
    }

    /// Sets the timer to wait for the instant `at`. A pending request is
    /// cancelled; the next poll arms the timer anew.
    pub fn reset_at<W>(&mut self, at: u64, inbox: &mut Inbox<W>)
        ensures
            final(self)@ == rearmed(at),
            final(inbox)@ == released_inbox(old(self)@, old(inbox)@),
    {
        if let Some(id) = self.registration {
            inbox.submit(Intent::Cancel { id });
        }
        self.registration = None;
        self.fired = false;
        self.deadline = at;
    }

    /// Sets the timer to wait for `dur` ticks from `now`.
    pub fn reset<W>(&mut self, now: u64, dur: u64, inbox: &mut Inbox<W>)
        requires
            now + dur <= u64::MAX,
        ensures
            final(self)@ == rearmed((now + dur) as u64),
            final(inbox)@ == released_inbox(old(self)@, old(inbox)@),
    {
        self.reset_at(now + dur, inbox);
    }

    /// Gives the timer up: a pending request is cancelled, so that its signal
    /// is not invoked once the driver has carried the cancellation out.
    pub fn release<W>(self, inbox: &mut Inbox<W>)
        ensures
            final(inbox)@ == released_inbox(self@, old(inbox)@),
    {
        if let Some(id) = self.registration {
            inbox.submit(Intent::Cancel { id });
        }
    }
}

} // verus!
