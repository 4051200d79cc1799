use playground_common::locker::{Grant, LockMode, Locker, Outcome};
use playground_common::timer::TimerStateSignal;

fn granted(grant: Grant, wakes_waiters: bool) -> Outcome {
    Outcome { grant, ticket: None, signal: Some(TimerStateSignal::Stop), wakes_waiters }
}

fn queued(ticket: u64, wakes_waiters: bool) -> Outcome {
    Outcome { grant: Grant::Blocked, ticket: Some(ticket), signal: Some(TimerStateSignal::Stop), wakes_waiters }
}

fn retry_granted() -> Outcome {
    Outcome { grant: Grant::Acquired, ticket: None, signal: None, wakes_waiters: true }
}

fn retry_waiting(ticket: u64) -> Outcome {
    Outcome { grant: Grant::Blocked, ticket: Some(ticket), signal: None, wakes_waiters: false }
}

#[test]
fn new_locker_is_free() {
    let l = Locker::new();
    assert!(l.is_free());
    assert_eq!(l.waiting(), 0);
    assert_eq!(l.next_ticket(), 0);
    assert_eq!(l.holding(1), None);
}

#[test]
fn readers_share_the_lock() {
    let mut l = Locker::new();
    assert_eq!(l.read(1), granted(Grant::Acquired, false));
    assert_eq!(l.read(2), granted(Grant::Acquired, false));
    assert_eq!(l.holding(1), Some(LockMode::Read));
    assert_eq!(l.holding(2), Some(LockMode::Read));
    assert!(!l.is_free());
}

#[test]
fn read_twice_is_noop() {
    let mut l = Locker::new();
    assert_eq!(l.read(5), granted(Grant::Acquired, false));
    assert_eq!(l.read(5), granted(Grant::AlreadyHeld, false));
    assert_eq!(l.holding(5), Some(LockMode::Read));
}

#[test]
fn write_twice_is_noop() {
    let mut l = Locker::new();
    assert_eq!(l.write(5), granted(Grant::Acquired, false));
    assert_eq!(l.write(5), granted(Grant::AlreadyHeld, false));
    assert_eq!(l.holding(5), Some(LockMode::Write));
}

#[test]
fn writer_blocks_others_in_order() {
    let mut l = Locker::new();
    assert_eq!(l.write(1), granted(Grant::Acquired, false));
    assert_eq!(l.read(2), queued(0, false));
    assert_eq!(l.write(3), queued(1, false));
    assert_eq!(l.waiting(), 2);
    assert_eq!(l.next_ticket(), 2);
    assert_eq!(l.holding(2), None);
    // Only the head of the queue can go, and only once the lock is free.
    assert_eq!(l.retry(0), retry_waiting(0));
    assert_eq!(l.retry(1), retry_waiting(1));
    assert_eq!(l.unlock(1), None);
    assert_eq!(l.retry(1), retry_waiting(1));
    assert_eq!(l.retry(0), retry_granted());
    assert_eq!(l.holding(2), Some(LockMode::Read));
    assert_eq!(l.retry(1), retry_waiting(1));
    assert_eq!(l.unlock(2), None);
    assert_eq!(l.retry(1), retry_granted());
    assert_eq!(l.holding(3), Some(LockMode::Write));
    assert_eq!(l.waiting(), 0);
    assert_eq!(l.unlock(3), Some(TimerStateSignal::Start));
    assert!(l.is_free());
}

#[test]
fn readers_do_not_overtake_waiting_writer() {
    let mut l = Locker::new();
    assert_eq!(l.read(1), granted(Grant::Acquired, false));
    assert_eq!(l.write(2), queued(0, false));
    // Compatible with the holder, but a writer waits: the reader queues.
    assert_eq!(l.read(3), queued(1, false));
    assert_eq!(l.unlock(1), None);
    assert_eq!(l.retry(1), retry_waiting(1));
    assert_eq!(l.retry(0), retry_granted());
    assert_eq!(l.retry(1), retry_waiting(1));
    assert_eq!(l.unlock(2), None);
    assert_eq!(l.retry(1), retry_granted());
    assert_eq!(l.unlock(3), Some(TimerStateSignal::Start));
}

#[test]
fn write_downgrades_to_read() {
    let mut l = Locker::new();
    l.write(4);
    assert_eq!(l.read(4), granted(Grant::Converted, true));
    assert_eq!(l.holding(4), Some(LockMode::Read));
    assert_eq!(l.read(9), granted(Grant::Acquired, false));
}

#[test]
fn downgrade_waits_behind_queue() {
    let mut l = Locker::new();
    l.write(4);
    assert_eq!(l.read(5), queued(0, false));
    assert_eq!(l.read(4), queued(1, true));
    assert_eq!(l.holding(4), None);
    assert_eq!(l.retry(0), retry_granted());
    assert_eq!(l.retry(1), retry_granted());
    assert_eq!(l.holding(4), Some(LockMode::Read));
    assert_eq!(l.holding(5), Some(LockMode::Read));
}

#[test]
fn sole_reader_upgrades_to_write() {
    let mut l = Locker::new();
    l.read(4);
    assert_eq!(l.write(4), granted(Grant::Converted, true));
    assert_eq!(l.holding(4), Some(LockMode::Write));
    assert_eq!(l.read(7), queued(0, false));
}

#[test]
fn blocked_upgrade_releases_read() {
    let mut l = Locker::new();
    l.read(1);
    l.read(2);
    // 1 gives up its read lock to wait for the write lock ...
    assert_eq!(l.write(1), queued(0, true));
    assert_eq!(l.holding(1), None);
    // ... and so does 2, behind it.
    assert_eq!(l.write(2), queued(1, true));
    assert!(l.is_free());
    assert_eq!(l.retry(0), retry_granted());
    assert_eq!(l.holding(1), Some(LockMode::Write));
    assert_eq!(l.retry(1), retry_waiting(1));
    assert_eq!(l.unlock(1), None);
    assert_eq!(l.retry(1), retry_granted());
    assert_eq!(l.unlock(2), Some(TimerStateSignal::Start));
}

#[test]
fn unknown_ticket_keeps_waiting() {
    let mut l = Locker::new();
    assert_eq!(l.retry(7), retry_waiting(7));
    assert!(l.is_free());
}

#[test]
fn unlock_of_unknown_client_is_noop() {
    let mut l = Locker::new();
    assert_eq!(l.unlock(3), None);
    l.read(1);
    assert_eq!(l.unlock(3), None);
    assert_eq!(l.holding(1), Some(LockMode::Read));
}

#[test]
fn last_unlock_starts_timer() {
    let mut l = Locker::new();
    l.read(1);
    l.read(2);
    assert_eq!(l.unlock(1), None);
    assert_eq!(l.unlock(2), Some(TimerStateSignal::Start));
    assert_eq!(l.unlock(2), None);
}

#[test]
fn acquire_then_unlock_restores_table() {
    let mut l = Locker::new();
    l.read(1);
    l.read(8);
    l.unlock(8);
    assert_eq!(l.holding(8), None);
    assert_eq!(l.holding(1), Some(LockMode::Read));
    assert_eq!(l.write(8), queued(0, false));
}

#[test]
fn would_wait_matches_answer() {
    let mut l = Locker::new();
    assert!(!l.would_wait(1, LockMode::Read));
    l.read(1);
    assert!(!l.would_wait(1, LockMode::Read));
    assert!(!l.would_wait(2, LockMode::Read));
    // An upgrade by the sole reader does not wait; a write by another does.
    assert!(!l.would_wait(1, LockMode::Write));
    assert!(l.would_wait(2, LockMode::Write));
    assert_eq!(l.write(2), queued(0, false));
    // A reader arriving behind a waiting writer waits too; the holder does not.
    assert!(l.would_wait(3, LockMode::Read));
    assert!(!l.would_wait(1, LockMode::Read));
    assert_eq!(l.next_ticket(), 1);
}
