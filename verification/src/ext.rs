//! Time limits for tasks and streams, and the error that reports them.

use crate::delay::{polled_inbox, polled_timer, rearmed, released_inbox, Delay, DelayState, Polled};
use crate::inbox::Inbox;
use vstd::prelude::*;

verus! {

/// Why a time-limited operation did not produce a value.
#[derive(Debug)]
pub enum TimeoutError<E> {
    /// The time limit passed before the operation finished.
    TimedOut,
    /// The operation itself failed, within its time limit.
    InnerError(E),
}

impl<E> TimeoutError<E> {
    /// The operation's own failure, if that is what this error holds.
    pub fn into_inner(self) -> (inner: Option<E>)
        ensures
            inner == match self {
                TimeoutError::TimedOut => None::<E>,
                TimeoutError::InnerError(e) => Some(e),
            },
    {
        match self {
            TimeoutError::TimedOut => None,
            TimeoutError::InnerError(e) => Some(e),
        }
    }

    /// The operation's own failure, borrowed, if that is what this error
    /// holds: the cause that lies under this error.
    pub fn inner(&self) -> (inner: Option<&E>)
        ensures
            inner == match *self {
                TimeoutError::TimedOut => None::<&E>,
                TimeoutError::InnerError(e) => Some(&e),
            },
    {
        match self {
            TimeoutError::TimedOut => None,
            TimeoutError::InnerError(e) => Some(e),
        }
    }

    /// Whether the time limit passed.
    pub fn is_timed_out(&self) -> (timed_out: bool)
        ensures
            timed_out == (*self is TimedOut),
    {
        match self {
            TimeoutError::TimedOut => true,
            TimeoutError::InnerError(_) => false,
        }
    }

    /// How the error reads: the whole text of a timeout, or what stands in
    /// front of the text of the operation's own failure.
    pub fn describe(&self) -> (text: &'static str)
        ensures
            text@ == (if *self is TimedOut {
                "future timed out"@
            } else {
                "inner future error: "@
            }),
    {
        match self {
            TimeoutError::TimedOut => "future timed out",
            TimeoutError::InnerError(_) => "inner future error: ",
        }
    }

    /// The operation's own failure. Only an `InnerError` can be unwrapped.
    pub fn unwrap(self) -> (inner: E)
        requires
            self is InnerError,
        ensures
            self == TimeoutError::InnerError(inner),
    {
        match self {
            TimeoutError::InnerError(e) => e,
            TimeoutError::TimedOut => unreached(),
        }
    }
}


/// The outcome of an operation as its time-limited form reports it: a value
/// as it is, a failure marked as the operation's own.
pub open spec fn within_limit<T, E>(outcome: Result<T, E>) -> Result<T, TimeoutError<E>> {
    match outcome {
        Ok(value) => Ok(value),
        Err(e) => Err(TimeoutError::InnerError(e)),
    }
}

/// Marks a failure as the operation's own.
pub fn map_inner<T, E>(outcome: Result<T, E>) -> (out: Result<T, TimeoutError<E>>)
    ensures
        out == within_limit(outcome),
{
    match outcome {
        Ok(value) => Ok(value),
        Err(e) => Err(TimeoutError::InnerError(e)),
    }
}

/// The time limit on one task. The task itself stays with the caller, who
/// polls it first and hands in what it said.
#[derive(Debug)]
pub struct Timeout {
    timeout: Delay,
}

impl Timeout {
    /// The timer that holds the limit.
    pub closed spec fn timer(&self) -> DelayState {
        self.timeout@
    }

    /// A limit of `dur` ticks from `now`.
    pub fn new(now: u64, dur: u64) -> (limit: Timeout)
        requires
            now + dur <= u64::MAX,
        ensures
            limit.timer() == rearmed((now + dur) as u64),
    {
        Timeout { timeout: Delay::new(now, dur) }
    }

    /// A limit that ends at the instant `at`.
    pub fn new_at(at: u64) -> (limit: Timeout)
        ensures
            limit.timer() == rearmed(at),
    {
        Timeout { timeout: Delay::new_at(at) }
    }

    /// The instant at which the limit ends.
    pub fn deadline(&self) -> (at: u64)
        ensures
            at == self.timer().deadline,
    {
        self.timeout.deadline()
    }

    /// Whether the limit's timer has a request pending.
    pub fn is_armed(&self) -> (armed: bool)
        ensures
            armed == self.timer().registration is Some,
    {
        self.timeout.registration().is_some()
    }

    /// What the time-limited task says at `now`, given what the task itself
    /// said when polled just before.
    ///
    /// A task that has finished wins, whatever the clock says, and the timer
    /// is left alone. Only while the task is pending is the timer polled: if
    /// the limit has come the answer is the timeout, else it is pending.
    pub fn poll<T, E, W>(
        &mut self,
        inner: Polled<Result<T, E>>,
        now: u64,
        signal: W,
        moved: bool,
        inbox: &mut Inbox<W>,
    ) -> (out: Polled<Result<T, TimeoutError<E>>>)
        requires
            inner is Pending && old(self).timer().deadline > now && old(
                self,
            ).timer().registration is None ==> old(inbox)@.issued < u64::MAX,
        ensures
            match inner {
                Polled::Ready(outcome) => out == Polled::Ready(within_limit(outcome))
                    && final(self).timer() == old(self).timer() && final(inbox)@ == old(inbox)@,
                Polled::Pending => out == (if old(self).timer().deadline <= now {
                    Polled::Ready(Err::<T, TimeoutError<E>>(TimeoutError::TimedOut))
                } else {
                    Polled::Pending
                }) && final(self).timer() == polled_timer(
                    old(self).timer(),
                    now,
                    old(inbox)@.issued,
                ) && final(inbox)@ == polled_inbox(
                    old(self).timer(),
                    old(inbox)@,
                    now,
                    signal,
                    moved,
                ),
            },
    {
        match inner {
            Polled::Ready(outcome) => Polled::Ready(map_inner(outcome)),
            Polled::Pending => match self.timeout.poll(now, signal, moved, inbox) {
                Polled::Ready(_) => Polled::Ready(Err(TimeoutError::TimedOut)),
                Polled::Pending => Polled::Pending,
            },
        }
    }

    /// Gives the limit up and cancels what its timer had pending.
    pub fn release<W>(self, inbox: &mut Inbox<W>)
        ensures
            final(inbox)@ == released_inbox(self.timer(), old(inbox)@),
    {
        self.timeout.release(inbox);
    }
}

/// The time limit on each item of a stream. The stream itself stays with the
/// caller, who polls it first and hands in what it said.
#[derive(Debug)]
pub struct TimeoutStream {
    timeout: Delay,
    dur: u64,
}

impl TimeoutStream {
    /// The timer that holds the limit for the next item.
    pub closed spec fn timer(&self) -> DelayState {
        self.timeout@
    }

    /// The ticks that each item may take.
    pub closed spec fn limit(&self) -> u64 {
        self.dur
    }

    /// A limit of `dur` ticks for each item, the first counted from `now`.
    pub fn new(now: u64, dur: u64) -> (limit: TimeoutStream)
        requires
            now + dur <= u64::MAX,
        ensures
            limit.timer() == rearmed((now + dur) as u64),
            limit.limit() == dur,
    {
        TimeoutStream { timeout: Delay::new(now, dur), dur }
    }

    /// The ticks that each item may take.
    pub fn dur(&self) -> (dur: u64)
        ensures
            dur == self.limit(),
    {
        self.dur
    }

    /// The instant at which the limit for the next item ends.
    pub fn deadline(&self) -> (at: u64)
        ensures
            at == self.timer().deadline,
    {
        self.timeout.deadline()
    }

    /// Whether the limit's timer has a request pending.
    pub fn is_armed(&self) -> (armed: bool)
        ensures
            armed == self.timer().registration is Some,
    {
        self.timeout.registration().is_some()
    }

    /// What the time-limited stream says at `now`, given what the stream
    /// itself said when polled just before.
    ///
    /// An item, or the stream's end, is passed on, and the clock starts anew
    /// for the next item. Only while the stream is pending is the timer
    /// polled: if the limit has come the answer is an item that reports the
    /// timeout, the stream goes on and the clock starts anew; else the answer
    /// is pending.
    pub fn poll_next<T, E, W>(
        &mut self,
        inner: Polled<Option<Result<T, E>>>,
        now: u64,
        signal: W,
        moved: bool,
        inbox: &mut Inbox<W>,
    ) -> (out: Polled<Option<Result<T, TimeoutError<E>>>>)
        requires
            inner is Ready || old(self).timer().deadline <= now ==> now + old(self).limit()
                <= u64::MAX,
            inner is Pending && old(self).timer().deadline > now && old(
                self,
            ).timer().registration is None ==> old(inbox)@.issued < u64::MAX,
        ensures
            final(self).limit() == old(self).limit(),
            inner is Ready || old(self).timer().deadline <= now ==> final(self).timer() == rearmed(
                (now + old(self).limit()) as u64,
            ) && final(inbox)@ == released_inbox(old(self).timer(), old(inbox)@),
            inner is Pending && old(self).timer().deadline > now ==> final(self).timer()
                == polled_timer(old(self).timer(), now, old(inbox)@.issued) && final(inbox)@
                == polled_inbox(old(self).timer(), old(inbox)@, now, signal, moved),
            out == match inner {
                Polled::Ready(Some(outcome)) => Polled::Ready(Some(within_limit(outcome))),
                Polled::Ready(None) => Polled::Ready(None),
                Polled::Pending => if old(self).timer().deadline <= now {
                    Polled::Ready(Some(Err::<T, TimeoutError<E>>(TimeoutError::TimedOut)))
                } else {
                    Polled::Pending
                },
            },
    {
        let dur = self.dur;
        match inner {
            Polled::Ready(Some(outcome)) => {
                self.timeout.reset(now, dur, inbox);
                Polled::Ready(Some(map_inner(outcome)))
            },
            Polled::Ready(None) => {
                self.timeout.reset(now, dur, inbox);
                Polled::Ready(None)
            },
            Polled::Pending => match self.timeout.poll(now, signal, moved, inbox) {
                Polled::Ready(_) => {
                    self.timeout.reset(now, dur, inbox);
                    Polled::Ready(Some(Err(TimeoutError::TimedOut)))
                },
                Polled::Pending => Polled::Pending,
            },
        }
    }

    /// Gives the limit up and cancels what its timer had pending.
    pub fn release<W>(self, inbox: &mut Inbox<W>)
        ensures
            final(inbox)@ == released_inbox(self.timer(), old(inbox)@),
    {
        self.timeout.release(inbox);
    }
}

} // verus!
