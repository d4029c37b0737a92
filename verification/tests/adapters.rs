use futures_timer::delay::Polled;
use futures_timer::ext::{map_inner, Timeout, TimeoutError, TimeoutStream};
use futures_timer::inbox::Inbox;
use futures_timer::store::Intent;

#[test]
fn into_inner_gives_the_inner_error() {
    let e: TimeoutError<&'static str> = TimeoutError::InnerError("boom");
    assert_eq!(e.into_inner(), Some("boom"));
}

#[test]
fn into_inner_of_a_timeout_is_none() {
    let e: TimeoutError<&'static str> = TimeoutError::TimedOut;
    assert_eq!(e.into_inner(), None);
}

#[test]
fn unwrap_gives_the_inner_error() {
    let e: TimeoutError<u32> = TimeoutError::InnerError(17);
    assert_eq!(e.unwrap(), 17);
}

#[test]
fn inner_borrows_the_cause() {
    let e: TimeoutError<String> = TimeoutError::InnerError(String::from("cause"));
    assert_eq!(e.inner().map(|s| s.as_str()), Some("cause"));
    assert!(!e.is_timed_out());
    let t: TimeoutError<String> = TimeoutError::TimedOut;
    assert!(t.inner().is_none());
    assert!(t.is_timed_out());
}

#[test]
fn describe_reads_as_the_error_does() {
    let t: TimeoutError<u32> = TimeoutError::TimedOut;
    assert_eq!(t.describe(), "future timed out");
    let e: TimeoutError<u32> = TimeoutError::InnerError(3);
    assert_eq!(format!("{}{}", e.describe(), 3), "inner future error: 3");
}

#[test]
fn map_inner_marks_only_failures() {
    let ok: Result<u32, &'static str> = Ok(1);
    assert!(matches!(map_inner(ok), Ok(1)));
    let err: Result<u32, &'static str> = Err("bad");
    assert!(matches!(map_inner(err), Err(TimeoutError::InnerError("bad"))));
}

#[test]
fn task_that_finishes_in_time_wins() {
    let mut inbox: Inbox<u32> = Inbox::new();
    let mut limit = Timeout::new(0, 100);
    let pending: Polled<Result<&'static str, u8>> = Polled::Pending;
    assert!(matches!(limit.poll(pending, 0, 1, false, &mut inbox), Polled::Pending));
    assert_eq!(inbox.len(), 1);
    let done: Polled<Result<&'static str, u8>> = Polled::Ready(Ok("value"));
    assert!(matches!(limit.poll(done, 5, 1, false, &mut inbox), Polled::Ready(Ok("value"))));
    assert_eq!(inbox.len(), 1);
}

#[test]
fn task_that_never_finishes_times_out_at_the_limit() {
    let mut inbox: Inbox<u32> = Inbox::new();
    let mut limit = Timeout::new(0, 10);
    for now in [0u64, 5, 9] {
        let pending: Polled<Result<u32, u8>> = Polled::Pending;
        assert!(matches!(limit.poll(pending, now, 1, false, &mut inbox), Polled::Pending));
    }
    assert_eq!(inbox.len(), 1);
    let pending: Polled<Result<u32, u8>> = Polled::Pending;
    assert!(matches!(
        limit.poll(pending, 10, 1, false, &mut inbox),
        Polled::Ready(Err(TimeoutError::TimedOut))
    ));
}

#[test]
fn task_that_fails_reports_its_own_failure_even_after_the_limit() {
    let mut inbox: Inbox<u32> = Inbox::new();
    let mut limit = Timeout::new_at(10);
    let failed: Polled<Result<u32, &'static str>> = Polled::Ready(Err("broken"));
    assert!(matches!(
        limit.poll(failed, 500, 1, false, &mut inbox),
        Polled::Ready(Err(TimeoutError::InnerError("broken")))
    ));
    assert!(inbox.is_empty());
}

#[test]
fn released_limit_cancels_its_request() {
    let mut inbox: Inbox<u32> = Inbox::new();
    let mut limit = Timeout::new_at(10);
    let pending: Polled<Result<u32, u8>> = Polled::Pending;
    assert!(matches!(limit.poll(pending, 0, 1, false, &mut inbox), Polled::Pending));
    limit.release(&mut inbox);
    let queued = inbox.take_all();
    assert_eq!(queued.len(), 2);
    assert!(matches!(queued[0], Intent::Insert { id: 0, deadline: 10, signal: 1 }));
    assert!(matches!(queued[1], Intent::Cancel { id: 0 }));
}

#[test]
fn stream_item_then_stall_yields_item_then_timeout_and_goes_on() {
    let mut inbox: Inbox<u32> = Inbox::new();
    let mut limit = TimeoutStream::new(0, 10);
    assert_eq!(limit.dur(), 10);

    let pending: Polled<Option<Result<&'static str, u8>>> = Polled::Pending;
    assert!(matches!(limit.poll_next(pending, 0, 1, false, &mut inbox), Polled::Pending));

    let item: Polled<Option<Result<&'static str, u8>>> = Polled::Ready(Some(Ok("item")));
    assert!(matches!(
        limit.poll_next(item, 5, 1, false, &mut inbox),
        Polled::Ready(Some(Ok("item")))
    ));

    let pending: Polled<Option<Result<&'static str, u8>>> = Polled::Pending;
    assert!(matches!(limit.poll_next(pending, 14, 1, false, &mut inbox), Polled::Pending));

    let pending: Polled<Option<Result<&'static str, u8>>> = Polled::Pending;
    assert!(matches!(
        limit.poll_next(pending, 15, 1, false, &mut inbox),
        Polled::Ready(Some(Err(TimeoutError::TimedOut)))
    ));

    let pending: Polled<Option<Result<&'static str, u8>>> = Polled::Pending;
    assert!(matches!(limit.poll_next(pending, 24, 1, false, &mut inbox), Polled::Pending));
    let pending: Polled<Option<Result<&'static str, u8>>> = Polled::Pending;
    assert!(matches!(
        limit.poll_next(pending, 25, 1, false, &mut inbox),
        Polled::Ready(Some(Err(TimeoutError::TimedOut)))
    ));

    let queued = inbox.take_all();
    assert_eq!(queued.len(), 6);
    assert!(matches!(queued[0], Intent::Insert { id: 0, deadline: 10, signal: 1 }));
    assert!(matches!(queued[1], Intent::Cancel { id: 0 }));
    assert!(matches!(queued[2], Intent::Insert { id: 1, deadline: 15, signal: 1 }));
    assert!(matches!(queued[3], Intent::Cancel { id: 1 }));
    assert!(matches!(queued[4], Intent::Insert { id: 2, deadline: 25, signal: 1 }));
    assert!(matches!(queued[5], Intent::Cancel { id: 2 }));
}

#[test]
fn stream_end_and_failures_pass_through() {
    let mut inbox: Inbox<u32> = Inbox::new();
    let mut limit = TimeoutStream::new(0, 10);
    let failed: Polled<Option<Result<u32, &'static str>>> = Polled::Ready(Some(Err("bad")));
    assert!(matches!(
        limit.poll_next(failed, 100, 1, false, &mut inbox),
        Polled::Ready(Some(Err(TimeoutError::InnerError("bad"))))
    ));
    let pending: Polled<Option<Result<u32, &'static str>>> = Polled::Pending;
    assert!(matches!(limit.poll_next(pending, 109, 1, false, &mut inbox), Polled::Pending));
    let end: Polled<Option<Result<u32, &'static str>>> = Polled::Ready(None);
    assert!(matches!(limit.poll_next(end, 200, 1, false, &mut inbox), Polled::Ready(None)));
    limit.release(&mut inbox);
    let queued = inbox.take_all();
    assert_eq!(queued.len(), 2);
    assert!(matches!(queued[0], Intent::Insert { id: 0, deadline: 110, signal: 1 }));
    assert!(matches!(queued[1], Intent::Cancel { id: 0 }));
}

#[test]
fn limits_tell_their_deadline_and_whether_they_are_armed() {
    let mut inbox: Inbox<u32> = Inbox::new();
    let mut limit = Timeout::new(3, 7);
    assert_eq!(limit.deadline(), 10);
    assert!(!limit.is_armed());
    let pending: Polled<Result<u32, u8>> = Polled::Pending;
    assert!(matches!(limit.poll(pending, 4, 1, false, &mut inbox), Polled::Pending));
    assert!(limit.is_armed());
    let mut each = TimeoutStream::new(3, 7);
    assert_eq!(each.deadline(), 10);
    assert!(!each.is_armed());
    let item: Polled<Option<Result<u32, u8>>> = Polled::Ready(Some(Ok(1)));
    assert!(matches!(each.poll_next(item, 20, 1, false, &mut inbox), Polled::Ready(Some(Ok(1)))));
    assert_eq!(each.deadline(), 27);
    assert!(!each.is_armed());
}
