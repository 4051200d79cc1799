//! The locker service's bookkeeping: a system-wide reader/writer lock shared
//! by clients that are each identified by a lock identity. Subprocesses of a
//! client inherit its identity, so the lock is held per identity rather than
//! per process, and the classic policy holds across the whole call chain:
//! any number of concurrent readers, or one writer and nobody else.
//!
//! Requests are served fairly, first come first served: a request that
//! cannot be granted at once, or that arrives while others wait, joins the
//! back of a queue and gets a ticket. The service waits until the table
//! changes and then retries the ticket; only the request at the head of the
//! queue can be granted.
use vstd::prelude::*;

use crate::client_table::{
    ClientTable, holders_of, table_get, table_insert, table_is_empty, table_len, table_new, table_remove,
};
use crate::timer::TimerStateSignal;

verus! {



/// The kind of lock a client holds.
#[derive(Clone, Copy, Debug, PartialEq, Eq, Structural)]
pub enum LockMode {
    /// A shared lock; other clients may hold one at the same time.
    Read,
    /// The exclusive lock; no other client holds anything meanwhile.
    Write,
}

/// How a request was answered.
#[derive(Clone, Copy, Debug, PartialEq, Eq, Structural)]
pub enum Grant {
    /// The client now holds the requested lock.
    Acquired,
    /// The client held the other kind of lock and now holds the requested
    /// one instead (a downgrade from write to read, or an upgrade from read
    /// to write).
    Converted,
    /// The client already held the requested lock; nothing changed.
    AlreadyHeld,
    /// The lock cannot be granted now; the request waits in the queue under
    /// its ticket. A lock of the other kind that the client held has been
    /// released.
    Blocked,
}

/// A request waiting in the queue.
#[derive(Clone, Copy, Debug, PartialEq, Eq, Structural)]
pub struct Waiter {
    /// The ticket that names the request.
    pub ticket: u64,
    /// The client that asked.
    pub id: u32,
    /// The lock it asked for.
    pub mode: LockMode,
}

/// The answer to a request.
#[derive(Clone, Copy, Debug, PartialEq, Eq, Structural)]
pub struct Outcome {
    /// Whether, and how, the lock was granted.
    pub grant: Grant,
    /// The ticket of the request when it waits in the queue.
    pub ticket: Option<u64>,
    /// The signal to send to the expiration timer, if any: a fresh request
    /// stops the timer; a retried one has already done so.
    pub signal: Option<TimerStateSignal>,
    /// Whether the table or the queue changed in a way that may let a
    /// waiting request through, so that waiting requests should be retried.
    pub wakes_waiters: bool,
}

/// The abstract state of a locker.
#[verifier::ext_equal]
pub struct LockerView {
    /// The lock each client currently holds.
    pub holders: Map<u32, LockMode>,
    /// The requests that wait, oldest first.
    pub queue: Seq<Waiter>,
    /// The ticket the next waiting request will get.
    pub next_ticket: nat,
}

/// Multiple concurrent readers XOR a single exclusive writer: a client that
/// holds the write lock is the only client that holds anything.
pub open spec fn exclusive(h: Map<u32, LockMode>) -> bool {
    forall|a: u32, b: u32|
        #[trigger] h.contains_key(a) && #[trigger] h.contains_key(b) && h[a] == LockMode::Write ==> a == b
}

/// The queue's tickets are strictly increasing and all below the next ticket
/// to hand out, so that each ticket names one request.
pub open spec fn tickets_ordered(q: Seq<Waiter>, next: nat) -> bool {
    &&& forall|i: int, j: int| 0 <= i < j < q.len() ==> #[trigger] q[i].ticket < #[trigger] q[j].ticket
    &&& forall|i: int| 0 <= i < q.len() ==> #[trigger] q[i].ticket < next
}

/// The states a locker can be in.
pub open spec fn valid(s: LockerView) -> bool {
    &&& exclusive(s.holders)
    &&& s.holders.dom().finite()
    &&& tickets_ordered(s.queue, s.next_ticket)
}

/// Some client other than `id` holds the write lock.
pub open spec fn blocks_reader(h: Map<u32, LockMode>, id: u32) -> bool {
    exists|w: u32| #[trigger] h.contains_key(w) && w != id && h[w] == LockMode::Write
}

/// Whether `id` may hold a lock of `mode` next to the other clients of `h`:
/// a read lock unless another client writes, the write lock only if nobody
/// else holds anything.
pub open spec fn grantable(h: Map<u32, LockMode>, id: u32, mode: LockMode) -> bool {
    match mode {
        LockMode::Read => !blocks_reader(h, id),
        LockMode::Write => h.remove(id).dom().is_empty(),
    }
}

/// The state and answer after a fresh request by `id` for a lock of `mode`.
///
/// A client that already holds that lock changes nothing. Otherwise it first
/// gives up the other kind of lock if it holds it; it is then granted the
/// lock when nobody waits and the lock is compatible with the other holders,
/// and joins the back of the queue otherwise. Every fresh request stops the
/// expiration timer.
pub open spec fn request_step(s: LockerView, id: u32, mode: LockMode) -> (LockerView, Outcome) {
    let h = s.holders;
    if h.contains_key(id) && h[id] == mode {
        (
            s,
            Outcome {
                grant: Grant::AlreadyHeld,
                ticket: None,
                signal: Some(TimerStateSignal::Stop),
                wakes_waiters: false,
            },
        )
    } else {
        let released = h.contains_key(id);
        let h1 = h.remove(id);
        if s.queue.len() == 0 && grantable(h1, id, mode) {
            (
                LockerView { holders: h1.insert(id, mode), queue: s.queue, next_ticket: s.next_ticket },
                Outcome {
                    grant: if released { Grant::Converted } else { Grant::Acquired },
                    ticket: None,
                    signal: Some(TimerStateSignal::Stop),
                    wakes_waiters: released,
                },
            )
        } else {
            let w = Waiter { ticket: s.next_ticket as u64, id: id, mode: mode };
            (
                LockerView { holders: h1, queue: s.queue.push(w), next_ticket: s.next_ticket + 1 },
                Outcome {
                    grant: Grant::Blocked,
                    ticket: Some(w.ticket),
                    signal: Some(TimerStateSignal::Stop),
                    wakes_waiters: released,
                },
            )
        }
    }
}

/// A fresh read request.
pub open spec fn read_step(s: LockerView, id: u32) -> (LockerView, Outcome) {
    request_step(s, id, LockMode::Read)
}

/// A fresh write request.
pub open spec fn write_step(s: LockerView, id: u32) -> (LockerView, Outcome) {
    request_step(s, id, LockMode::Write)
}

/// The state and answer after the request with `ticket` is retried: it is
/// granted when it is at the head of the queue and its lock is compatible
/// with the holders; otherwise it keeps waiting and nothing changes.
pub open spec fn retry_step(s: LockerView, ticket: u64) -> (LockerView, Outcome) {
    if s.queue.len() > 0 && s.queue[0].ticket == ticket && grantable(s.holders, s.queue[0].id, s.queue[0].mode) {
        let w = s.queue[0];
        (
            LockerView {
                holders: s.holders.insert(w.id, w.mode),
                queue: s.queue.drop_first(),
                next_ticket: s.next_ticket,
            },
            Outcome { grant: Grant::Acquired, ticket: None, signal: None, wakes_waiters: true },
        )
    } else {
        (s, Outcome { grant: Grant::Blocked, ticket: Some(ticket), signal: None, wakes_waiters: false })
    }
}

/// The state and timer signal after `id` releases its lock: the entry goes
/// away, and the expiration timer is started when that leaves the lock free,
/// with no holder and no waiting request.
pub open spec fn unlock_step(s: LockerView, id: u32) -> (LockerView, Option<TimerStateSignal>) {
    if s.holders.contains_key(id) {
        let h = s.holders.remove(id);
        (
            LockerView { holders: h, queue: s.queue, next_ticket: s.next_ticket },
            if h.dom().is_empty() && s.queue.len() == 0 {
                Some(TimerStateSignal::Start)
            } else {
                None
            },
        )
    } else {
        (s, None)
    }
}

/// A client that holds the write lock is the only client in the table.
proof fn lemma_writer_alone(h: Map<u32, LockMode>, w: u32, k: u32)
    requires
        exclusive(h),
        h.contains_key(w),
        h[w] == LockMode::Write,
        h.contains_key(k),
    ensures
        k == w,
{
}

/// Granting `id` a compatible lock keeps the reader/writer policy.
proof fn lemma_grant_keeps_policy(h: Map<u32, LockMode>, id: u32, mode: LockMode)
    requires
        exclusive(h),
        grantable(h, id, mode),
    ensures
        exclusive(h.insert(id, mode)),
{
    let h1 = h.insert(id, mode);
    assert forall|a: u32, b: u32|
        #[trigger] h1.contains_key(a) && #[trigger] h1.contains_key(b) && h1[a] == LockMode::Write implies a
        == b by {
        if mode == LockMode::Write {
            assert(!h.remove(id).dom().contains(a) && !h.remove(id).dom().contains(b));
        } else {
            if a != id && h.contains_key(b) {
                lemma_writer_alone(h, a, b);
            }
            if a != id && b == id {
                assert(h.contains_key(a) && a != id && h[a] == LockMode::Write);
            }
        }
    };
}

/// Whether a client may be granted a lock does not depend on what it holds
/// itself: only the other clients count.
proof fn lemma_grantable_ignores_own(h: Map<u32, LockMode>, id: u32, mode: LockMode)
    ensures
        grantable(h.remove(id), id, mode) == grantable(h, id, mode),
{
    let h1 = h.remove(id);
    assert(h1.remove(id) =~= h1);
    if blocks_reader(h, id) {
        let w = choose|w: u32| #[trigger] h.contains_key(w) && w != id && h[w] == LockMode::Write;
        assert(h1.contains_key(w));
    }
    if blocks_reader(h1, id) {
        let w = choose|w: u32| #[trigger] h1.contains_key(w) && w != id && h1[w] == LockMode::Write;
        assert(h.contains_key(w));
    }
}

/// Whether a fresh request by `id` for a lock of `mode` has to wait, and so
/// takes a ticket.
pub open spec fn issues_ticket(s: LockerView, id: u32, mode: LockMode) -> bool {
    request_step(s, id, mode).1.grant == Grant::Blocked
}

/// The entries of a client table that may be lent out; a table that is lent
/// out counts as empty.
pub open spec fn table_view(t: Option<ClientTable>) -> Map<u32, LockMode> {
    match t {
        Some(m) => holders_of(m),
        None => Map::empty(),
    }
}

/// Taking a client out of the table keeps the reader/writer policy.
proof fn lemma_remove_keeps_policy(h: Map<u32, LockMode>, id: u32)
    requires
        exclusive(h),
    ensures
        exclusive(h.remove(id)),
{
    let h1 = h.remove(id);
    assert forall|a: u32, b: u32|
        #[trigger] h1.contains_key(a) && #[trigger] h1.contains_key(b) && h1[a] == LockMode::Write implies a
        == b by {
        lemma_writer_alone(h, a, b);
    };
}

/// A locker: the table of clients and the lock each holds, the writer if
/// there is one, the queue of waiting requests and the next ticket.
pub struct Locker {
    holders: Option<ClientTable>,
    writer: Option<u32>,
    queue: Vec<Waiter>,
    next_ticket: u64,
}

impl View for Locker {
    type V = LockerView;

    closed spec fn view(&self) -> LockerView {
        LockerView { holders: table_view(self.holders), queue: self.queue@, next_ticket: self.next_ticket as nat }
    }
}

impl Locker {
    /// The state is one a locker can be in, and `writer` names the client
    /// holding the write lock exactly when there is one.
    #[verifier::type_invariant]
    closed spec fn well_formed(self) -> bool {
        let h = table_view(self.holders);
        &&& valid(self@)
        &&& match self.writer {
            Some(w) => h.contains_key(w) && h[w] == LockMode::Write,
            None => forall|k: u32| #[trigger] h.contains_key(k) ==> h[k] == LockMode::Read,
        }
    }

    /// A locker with no clients and no waiting request.
    pub fn new() -> (l: Locker)
        ensures
            l@.holders == Map::<u32, LockMode>::empty(),
            l@.queue == Seq::<Waiter>::empty(),
            l@.next_ticket == 0,
            valid(l@),
    {
        let l = Locker { holders: Some(table_new()), writer: None, queue: Vec::new(), next_ticket: 0 };
        assert(l@.holders =~= Map::<u32, LockMode>::empty());
        l
    }

    /// An empty locker that owns no table yet: a cheap stand-in while the
    /// parts of a locker are being worked on.
    fn vacant() -> (l: Locker)
        ensures
            l@.holders == Map::<u32, LockMode>::empty(),
            l@.queue == Seq::<Waiter>::empty(),
    {
        let l = Locker { holders: None, writer: None, queue: Vec::new(), next_ticket: 0 };
        assert(l@.holders.dom() =~= Set::<u32>::empty());
        l
    }

    /// The table behind `t`, made when there is none.
    fn open_table(t: Option<ClientTable>) -> (m: ClientTable)
        ensures
            holders_of(m) == table_view(t),
    {
        match t {
            Some(m) => m,
            None => {
                let m = table_new();
                assert(holders_of(m) =~= Map::<u32, LockMode>::empty());
                m
            },
        }
    }

    /// The number of requests that wait to be granted.
    pub fn waiting(&self) -> (n: usize)
        ensures
            n == self@.queue.len(),
    {
        self.queue.len()
    }

    /// The ticket that the next waiting request will get.
    pub fn next_ticket(&self) -> (t: u64)
        ensures
            t == self@.next_ticket,
    {
        self.next_ticket
    }

    /// The lock that client `id` holds, if any.
    pub fn holding(&self, id: u32) -> (m: Option<LockMode>)
        ensures
            m == (if self@.holders.contains_key(id) {
                Some(self@.holders[id])
            } else {
                None
            }),
    {
        match &self.holders {
            Some(t) => table_get(t, id),
            None => None,
        }
    }

    /// Whether no client holds a lock.
    pub fn is_free(&self) -> (b: bool)
        ensures
            b == self@.holders.dom().is_empty(),
    {
        match &self.holders {
            Some(t) => table_is_empty(t),
            None => {
                assert(self@.holders.dom() =~= Set::<u32>::empty());
                true
            },
        }
    }

    /// Whether a fresh request by `id` for a lock of `mode` would have to
    /// wait, and so take a ticket.
    pub fn would_wait(&self, id: u32, mode: LockMode) -> (b: bool)
        ensures
            b == issues_ticket(self@, id, mode),
    {
        proof {
            use_type_invariant(self);
            lemma_grantable_ignores_own(self@.holders, id, mode);
        }
        match &self.holders {
            Some(t) => {
                let same = match (table_get(t, id), mode) {
                    (Some(LockMode::Read), LockMode::Read) => true,
                    (Some(LockMode::Write), LockMode::Write) => true,
                    _ => false,
                };
                !same && (self.queue.len() > 0 || !Self::grantable_now(t, self.writer, id, mode))
            },
            None => {
                let ghost h = self@.holders;
                assert(!blocks_reader(h, id));
                assert(h.remove(id).dom() =~= Set::<u32>::empty());
                self.queue.len() > 0
            },
        }
    }

    /// Whether `id` may be granted a lock of `mode` now.
    fn grantable_now(holders: &ClientTable, writer: Option<u32>, id: u32, mode: LockMode) -> (b: bool)
        requires
            exclusive(holders_of(*holders)),
            holders_of(*holders).dom().finite(),
            match writer {
                Some(w) => holders_of(*holders).contains_key(w) && holders_of(*holders)[w] == LockMode::Write,
                None => forall|k: u32| #[trigger]
                    holders_of(*holders).contains_key(k) ==> holders_of(*holders)[k] == LockMode::Read,
            },
        ensures
            b == grantable(holders_of(*holders), id, mode),
    {
        let ghost h = holders_of(*holders);
        match mode {
            LockMode::Read => match writer {
                Some(w) => {
                    if w != id {
                        assert(blocks_reader(h, id));
                    } else {
                        assert forall|k: u32| #[trigger] h.contains_key(k) && k != id implies h[k] != LockMode::Write by {
                            lemma_writer_alone(h, id, k);
                        };
                    }
                    w == id
                },
                None => true,
            },
            LockMode::Write => {
                let ghost h1 = h.remove(id);
                assert(h1.dom() =~= h.dom().remove(id));
                match table_get(holders, id) {
                    Some(_) => {
                        let n = table_len(holders);
                        assert(h1.dom().len() == h.dom().len() - 1);
                        n == 1
                    },
                    None => {
                        let e = table_is_empty(holders);
                        assert(h1.dom() =~= h.dom());
                        e
                    },
                }
            },
        }
    }

    /// Handles a fresh request from `id` for a lock of `mode`.
    fn request(&mut self, id: u32, mode: LockMode) -> (o: Outcome)
        requires
            issues_ticket(old(self)@, id, mode) ==> old(self)@.next_ticket < u64::MAX,
        ensures
            final(self)@ =~= request_step(old(self)@, id, mode).0,
            o == request_step(old(self)@, id, mode).1,
            valid(final(self)@),
    {
        let mut cur = Locker::vacant();
        std::mem::swap(self, &mut cur);
        proof {
            use_type_invariant(&cur);
        }
        let ghost s = cur@;
        let ghost h0 = cur@.holders;
        let Locker { holders: table, mut writer, mut queue, mut next_ticket } = cur;
        let mut holders = Self::open_table(table);
        let held = table_get(&holders, id);
        let same = match (held, mode) {
            (Some(LockMode::Read), LockMode::Read) => true,
            (Some(LockMode::Write), LockMode::Write) => true,
            _ => false,
        };
        if same {
            *self = Locker { holders: Some(holders), writer, queue, next_ticket };
            return Outcome {
                grant: Grant::AlreadyHeld,
                ticket: None,
                signal: Some(TimerStateSignal::Stop),
                wakes_waiters: false,
            };
        }
        let released = held.is_some();
        if released {
            if let Some(LockMode::Write) = held {
                assert forall|k: u32| #[trigger] h0.contains_key(k) implies k == id by {
                    lemma_writer_alone(h0, id, k);
                };
                writer = None;
            }
            table_remove(&mut holders, id);
        } else {
            assert(h0.remove(id) =~= h0);
        }
        proof {
            lemma_remove_keeps_policy(h0, id);
        }
        let ghost h1 = holders_of(holders);
        assert(h1 =~= h0.remove(id));
        if queue.len() == 0 && Self::grantable_now(&holders, writer, id, mode) {
            table_insert(&mut holders, id, mode);
            proof {
                lemma_grant_keeps_policy(h1, id, mode);
            }
            match mode {
                LockMode::Write => {
                    writer = Some(id);
                },
                LockMode::Read => {},
            }
            *self = Locker { holders: Some(holders), writer, queue, next_ticket };
            Outcome {
                grant: if released { Grant::Converted } else { Grant::Acquired },
                ticket: None,
                signal: Some(TimerStateSignal::Stop),
                wakes_waiters: released,
            }
        } else {
            assert(issues_ticket(s, id, mode));
            let ticket = next_ticket;
            queue.push(Waiter { ticket, id, mode });
            next_ticket = next_ticket + 1;
            *self = Locker { holders: Some(holders), writer, queue, next_ticket };
            Outcome { grant: Grant::Blocked, ticket: Some(ticket), signal: Some(TimerStateSignal::Stop), wakes_waiters: released }
        }
    }

    /// Handles a fresh read request from client `id`.
    ///
    /// If `id` holds a read lock this is a no-op; if it holds the write lock
    /// that is given up and a read lock asked for instead (a downgrade).
    /// The read lock is granted at once unless requests are waiting or
    /// another client holds the write lock; then the request waits in the
    /// queue. A fresh request also stops the expiration timer.
    pub fn read(&mut self, id: u32) -> (o: Outcome)
        requires
            issues_ticket(old(self)@, id, LockMode::Read) ==> old(self)@.next_ticket < u64::MAX,
        ensures
            final(self)@ =~= read_step(old(self)@, id).0,
            o == read_step(old(self)@, id).1,
            valid(final(self)@),
            old(self)@.holders.contains_key(id) && old(self)@.holders[id] == LockMode::Read ==> final(self)@
                == old(self)@ && o.grant == Grant::AlreadyHeld,
            forall|k: u32|
                k != id ==> (#[trigger] final(self)@.holders.contains_key(k) == old(self)@.holders.contains_key(k)),
    {
        proof {
            if old(self)@.holders.contains_key(id) && old(self)@.holders[id] == LockMode::Read {
                lemma_read_when_reading_is_noop(old(self)@, id);
            }
        }
        self.request(id, LockMode::Read)
    }

    /// Handles a fresh write request from client `id`.
    ///
    /// If `id` holds the write lock this is a no-op; if it holds a read lock
    /// that is given up and the write lock asked for instead (an upgrade).
    /// The write lock is granted at once when nobody waits and nobody else
    /// holds anything; otherwise the request waits in the queue. A fresh
    /// request also stops the expiration timer.
    pub fn write(&mut self, id: u32) -> (o: Outcome)
        requires
            issues_ticket(old(self)@, id, LockMode::Write) ==> old(self)@.next_ticket < u64::MAX,
        ensures
            final(self)@ =~= write_step(old(self)@, id).0,
            o == write_step(old(self)@, id).1,
            valid(final(self)@),
            old(self)@.holders.contains_key(id) && old(self)@.holders[id] == LockMode::Write ==> final(self)@
                == old(self)@ && o.grant == Grant::AlreadyHeld,
            forall|k: u32|
                k != id ==> (#[trigger] final(self)@.holders.contains_key(k) == old(self)@.holders.contains_key(k)),
    {
        proof {
            if old(self)@.holders.contains_key(id) && old(self)@.holders[id] == LockMode::Write {
                lemma_write_when_writing_is_noop(old(self)@, id);
            }
        }
        self.request(id, LockMode::Write)
    }

    /// Retries the waiting request with `ticket`: grants it when it heads
    /// the queue and its lock is compatible with the holders, and leaves it
    /// waiting otherwise.
    pub fn retry(&mut self, ticket: u64) -> (o: Outcome)
        ensures
            final(self)@ =~= retry_step(old(self)@, ticket).0,
            o == retry_step(old(self)@, ticket).1,
            valid(final(self)@),
            old(self)@.queue.len() > 0 && old(self)@.queue[0].ticket == ticket && head_may_go(old(self)@) ==> o.grant
                == Grant::Acquired && final(self)@.holders.contains_key(old(self)@.queue[0].id)
                && final(self)@.holders[old(self)@.queue[0].id] == old(self)@.queue[0].mode
                && final(self)@.queue == old(self)@.queue.drop_first(),
    {
        proof {
            if old(self)@.queue.len() > 0 && head_may_go(old(self)@) {
                lemma_compatible_head_granted(old(self)@, 0);
            }
        }
        self.advance(ticket)
    }

    /// Grants the head of the queue if `ticket` names it and its lock fits.
    fn advance(&mut self, ticket: u64) -> (o: Outcome)
        ensures
            final(self)@ =~= retry_step(old(self)@, ticket).0,
            o == retry_step(old(self)@, ticket).1,
            valid(final(self)@),
    {
        let mut cur = Locker::vacant();
        std::mem::swap(self, &mut cur);
        proof {
            use_type_invariant(&cur);
        }
        let ghost h0 = cur@.holders;
        let ghost q0 = cur.queue@;
        let Locker { holders: table, mut writer, mut queue, next_ticket } = cur;
        let mut holders = Self::open_table(table);
        if queue.len() > 0 && queue[0].ticket == ticket {
            let w = queue[0];
            if Self::grantable_now(&holders, writer, w.id, w.mode) {
                queue.remove(0);
                table_insert(&mut holders, w.id, w.mode);
                proof {
                    lemma_grant_keeps_policy(h0, w.id, w.mode);
                    assert(queue@ =~= q0.drop_first());
                }
                match w.mode {
                    LockMode::Write => {
                        writer = Some(w.id);
                    },
                    LockMode::Read => {
                        if writer == Some(w.id) {
                            writer = None;
                            assert forall|k: u32| #[trigger] h0.contains_key(k) implies k == w.id by {
                                lemma_writer_alone(h0, w.id, k);
                            };
                        }
                    },
                }
                *self = Locker { holders: Some(holders), writer, queue, next_ticket };
                return Outcome { grant: Grant::Acquired, ticket: None, signal: None, wakes_waiters: true };
            }
        }
        *self = Locker { holders: Some(holders), writer, queue, next_ticket };
        Outcome { grant: Grant::Blocked, ticket: Some(ticket), signal: None, wakes_waiters: false }
    }

    /// Releases whatever lock client `id` holds. When that leaves nobody
    /// holding or waiting for the lock, the answer is the signal that starts
    /// the expiration timer. A client that holds nothing changes nothing.
    pub fn unlock(&mut self, id: u32) -> (signal: Option<TimerStateSignal>)
        ensures
            final(self)@ =~= unlock_step(old(self)@, id).0,
            signal == unlock_step(old(self)@, id).1,
            valid(final(self)@),
    {
        let mut cur = Locker::vacant();
        std::mem::swap(self, &mut cur);
        proof {
            use_type_invariant(&cur);
        }
        let ghost h0 = cur@.holders;
        let Locker { holders: table, mut writer, queue, next_ticket } = cur;
        let mut holders = Self::open_table(table);
        let removed = table_remove(&mut holders, id);
        proof {
            lemma_remove_keeps_policy(h0, id);
        }
        let signal = match removed {
            Some((_, LockMode::Write)) => {
                assert forall|k: u32| #[trigger] h0.contains_key(k) implies k == id by {
                    lemma_writer_alone(h0, id, k);
                };
                writer = None;
                if table_is_empty(&holders) && queue.len() == 0 {
                    Some(TimerStateSignal::Start)
                } else {
                    None
                }
            },
            Some((_, LockMode::Read)) => {
                if table_is_empty(&holders) && queue.len() == 0 {
                    Some(TimerStateSignal::Start)
                } else {
                    None
                }
            },
            None => {
                assert(holders_of(holders) =~= h0);
                None
            },
        };
        *self = Locker { holders: Some(holders), writer, queue, next_ticket };
        signal
    }
}

} // verus!

verus! {

/// Every request keeps the locker in a valid state: the reader/writer
/// policy (readers only, or a single writer) holds after any fresh request,
/// retry or release, and the queue stays in ticket order.
pub proof fn lemma_steps_keep_validity(s: LockerView, id: u32, mode: LockMode, ticket: u64)
    requires
        valid(s),
        s.next_ticket < u64::MAX,
    ensures
        valid(request_step(s, id, mode).0),
        valid(retry_step(s, ticket).0),
        valid(unlock_step(s, id).0),
{
    let h = s.holders;
    lemma_remove_keeps_policy(h, id);
    let h1 = h.remove(id);
    if grantable(h1, id, mode) {
        lemma_grant_keeps_policy(h1, id, mode);
    }
    let q = s.queue;
    let q1 = q.push(Waiter { ticket: s.next_ticket as u64, id: id, mode: mode });
    assert forall|i: int, j: int| 0 <= i < j < q1.len() implies #[trigger] q1[i].ticket < #[trigger] q1[j].ticket by {
        if j == q.len() {
            assert(q1[i] == q[i]);
        }
    };
    if q.len() > 0 && grantable(h, q[0].id, q[0].mode) {
        lemma_grant_keeps_policy(h, q[0].id, q[0].mode);
        let q2 = q.drop_first();
        assert forall|i: int, j: int| 0 <= i < j < q2.len() implies #[trigger] q2[i].ticket < #[trigger] q2[j].ticket by {
            assert(q2[i] == q[i + 1] && q2[j] == q[j + 1]);
        };
        assert forall|i: int| 0 <= i < q2.len() implies #[trigger] q2[i].ticket < s.next_ticket by {
            assert(q2[i] == q[i + 1]);
        };
    }
}

/// Tickets name requests: no two waiting requests share one.
pub proof fn lemma_tickets_unique(s: LockerView, i: int, j: int)
    requires
        valid(s),
        0 <= i < s.queue.len(),
        0 <= j < s.queue.len(),
        i != j,
    ensures
        s.queue[i].ticket != s.queue[j].ticket,
{
    if i < j {
        assert(s.queue[i].ticket < s.queue[j].ticket);
    } else {
        assert(s.queue[j].ticket < s.queue[i].ticket);
    }
}

/// Asking twice for a lock one has been granted is the same as asking once:
/// the second request is answered `AlreadyHeld` and changes nothing.
pub proof fn lemma_request_idempotent(s: LockerView, id: u32, mode: LockMode)
    requires
        request_step(s, id, mode).1.grant != Grant::Blocked,
    ensures
        ({
            let s1 = request_step(s, id, mode).0;
            let (s2, o2) = request_step(s1, id, mode);
            o2.grant == Grant::AlreadyHeld && s2 == s1
        }),
{
}

/// A client that held nothing, asked for a lock and then released it leaves
/// the other clients' locks as it found them, whether or not the lock was
/// granted in between.
pub proof fn lemma_unlock_undoes_request(s: LockerView, id: u32, mode: LockMode)
    requires
        !s.holders.contains_key(id),
    ensures
        unlock_step(request_step(s, id, mode).0, id).0.holders == s.holders,
{
    let h = s.holders;
    assert(h.remove(id) =~= h);
    assert(h.remove(id).insert(id, mode).remove(id) =~= h);
}

/// Releasing a lock that one does not hold changes nothing and starts no
/// timer.
pub proof fn lemma_unlock_absent_is_noop(s: LockerView, id: u32)
    requires
        !s.holders.contains_key(id),
    ensures
        unlock_step(s, id).0 == s,
        unlock_step(s, id).1 == None::<TimerStateSignal>,
{
}

/// A writer that asks for a read lock while nobody waits is downgraded at
/// once and stays the only client in the table.
pub proof fn lemma_downgrade(s: LockerView, id: u32)
    requires
        valid(s),
        s.holders.contains_key(id),
        s.holders[id] == LockMode::Write,
        s.queue.len() == 0,
    ensures
        read_step(s, id).1.grant == Grant::Converted,
        read_step(s, id).0.holders == Map::<u32, LockMode>::empty().insert(id, LockMode::Read),
{
    let h = s.holders;
    assert forall|k: u32| #[trigger] h.contains_key(k) implies k == id by {
        lemma_writer_alone(h, id, k);
    };
    assert(h.remove(id).dom() =~= Set::<u32>::empty());
    assert(h.remove(id).insert(id, LockMode::Read) =~= Map::<u32, LockMode>::empty().insert(id, LockMode::Read));
}

/// Readers never keep each other out: while nobody holds the write lock and
/// nobody waits, every read request is granted at once.
pub proof fn lemma_readers_share(s: LockerView, id: u32)
    requires
        forall|k: u32| #[trigger] s.holders.contains_key(k) ==> s.holders[k] == LockMode::Read,
        s.queue.len() == 0,
    ensures
        read_step(s, id).1.grant != Grant::Blocked,
        read_step(s, id).0.holders.contains_key(id),
        read_step(s, id).0.holders[id] == LockMode::Read,
{
}

/// A writer keeps everybody else out: a request by another client while
/// `w` holds the write lock waits, and `w` keeps the write lock.
pub proof fn lemma_writer_excludes(s: LockerView, w: u32, id: u32, mode: LockMode)
    requires
        valid(s),
        s.holders.contains_key(w),
        s.holders[w] == LockMode::Write,
        id != w,
    ensures
        request_step(s, id, mode).1.grant == Grant::Blocked,
        request_step(s, id, mode).0.holders.contains_key(w),
        request_step(s, id, mode).0.holders[w] == LockMode::Write,
{
    let h = s.holders;
    if h.contains_key(id) {
        lemma_writer_alone(h, w, id);
    }
    assert(h.remove(id).contains_key(w));
    assert(blocks_reader(h.remove(id), id));
    assert(!h.remove(id).dom().is_empty());
}

/// First come, first served: while requests wait, a fresh request for a
/// lock the client does not already hold is never granted ahead of them; it
/// joins the back of the queue under the next ticket.
pub proof fn lemma_no_overtaking(s: LockerView, id: u32, mode: LockMode)
    requires
        s.queue.len() > 0,
        !(s.holders.contains_key(id) && s.holders[id] == mode),
    ensures
        request_step(s, id, mode).1.grant == Grant::Blocked,
        request_step(s, id, mode).0.queue == s.queue.push(
            Waiter { ticket: s.next_ticket as u64, id: id, mode: mode },
        ),
{
}

/// Only the request at the head of the queue is ever granted on a retry,
/// and granting it removes exactly it from the queue.
pub proof fn lemma_retry_grants_head_only(s: LockerView, ticket: u64)
    requires
        retry_step(s, ticket).1.grant == Grant::Acquired,
    ensures
        s.queue.len() > 0,
        s.queue[0].ticket == ticket,
        retry_step(s, ticket).0.queue == s.queue.drop_first(),
        retry_step(s, ticket).0.holders == s.holders.insert(s.queue[0].id, s.queue[0].mode),
{
}

/// Once the lock is free, the request at the head of the queue is granted
/// when it is retried.
pub proof fn lemma_head_granted_when_free(s: LockerView)
    requires
        s.holders.dom().is_empty(),
        s.queue.len() > 0,
    ensures
        retry_step(s, s.queue[0].ticket).1.grant == Grant::Acquired,
{
    let h = s.holders;
    let w = s.queue[0];
    assert(h.remove(w.id).dom() =~= Set::<u32>::empty());
    if blocks_reader(h, w.id) {
        let x = choose|x: u32| #[trigger] h.contains_key(x) && x != w.id && h[x] == LockMode::Write;
        assert(h.dom().contains(x));
    }
}

/// The expiration timer is started only by a release that leaves the lock
/// free: nobody holds it and no request waits for it.
pub proof fn lemma_timer_starts_only_when_free(s: LockerView, id: u32)
    requires
        unlock_step(s, id).1 == Some(TimerStateSignal::Start),
    ensures
        unlock_step(s, id).0.holders.dom().is_empty(),
        unlock_step(s, id).0.queue.len() == 0,
{
}

/// Every fresh request stops the expiration timer; a retried one sends no
/// signal.
pub proof fn lemma_requests_stop_timer(s: LockerView, id: u32, mode: LockMode, ticket: u64)
    ensures
        request_step(s, id, mode).1.signal == Some(TimerStateSignal::Stop),
        retry_step(s, ticket).1.signal == None::<TimerStateSignal>,
{
}

} // verus!

verus! {

/// A client that already holds a read lock and asks for one again keeps it,
/// and nothing changes, whatever the queue holds: the request is answered
/// `AlreadyHeld` at once and only stops the expiration timer.
pub proof fn lemma_read_when_reading_is_noop(s: LockerView, id: u32)
    requires
        s.holders.contains_key(id),
        s.holders[id] == LockMode::Read,
    ensures
        read_step(s, id).0 == s,
        read_step(s, id).1 == (Outcome {
            grant: Grant::AlreadyHeld,
            ticket: None,
            signal: Some(TimerStateSignal::Stop),
            wakes_waiters: false,
        }),
{
}

/// A client that already holds the write lock and asks for it again keeps
/// it, and nothing changes, whatever the queue holds: the request is
/// answered `AlreadyHeld` at once and only stops the expiration timer.
pub proof fn lemma_write_when_writing_is_noop(s: LockerView, id: u32)
    requires
        s.holders.contains_key(id),
        s.holders[id] == LockMode::Write,
    ensures
        write_step(s, id).0 == s,
        write_step(s, id).1 == (Outcome {
            grant: Grant::AlreadyHeld,
            ticket: None,
            signal: Some(TimerStateSignal::Stop),
            wakes_waiters: false,
        }),
{
}

/// A read request and a write request are the same operation, asking for a
/// different kind of lock.
pub proof fn lemma_read_write_are_requests(s: LockerView, id: u32)
    ensures
        read_step(s, id) == request_step(s, id, LockMode::Read),
        write_step(s, id) == request_step(s, id, LockMode::Write),
{
}

/// A request by `id` leaves every other client's lock as it was, whether it
/// is granted, waits, or finds the lock already held.
pub proof fn lemma_request_keeps_others(s: LockerView, id: u32, mode: LockMode, k: u32)
    requires
        k != id,
    ensures
        request_step(s, id, mode).0.holders.contains_key(k) == s.holders.contains_key(k),
        s.holders.contains_key(k) ==> request_step(s, id, mode).0.holders[k] == s.holders[k],
{
}

/// With nobody waiting, a client that asks for a lock it does not hold is
/// granted it at once when the other clients allow it: for a read lock,
/// nobody else writes; for the write lock, nobody else holds anything. It
/// then holds exactly the lock it asked for, and the queue stays empty.
pub proof fn lemma_compatible_request_granted(s: LockerView, id: u32, mode: LockMode)
    requires
        s.queue.len() == 0,
        !(s.holders.contains_key(id) && s.holders[id] == mode),
        mode == LockMode::Read ==> forall|k: u32|
            #[trigger] s.holders.contains_key(k) && k != id ==> s.holders[k] == LockMode::Read,
        mode == LockMode::Write ==> forall|k: u32| #[trigger] s.holders.contains_key(k) ==> k == id,
    ensures
        request_step(s, id, mode).1.grant == (if s.holders.contains_key(id) {
            Grant::Converted
        } else {
            Grant::Acquired
        }),
        request_step(s, id, mode).0.holders.contains_key(id),
        request_step(s, id, mode).0.holders[id] == mode,
        request_step(s, id, mode).0.queue.len() == 0,
{
    let h1 = s.holders.remove(id);
    lemma_grantable_ignores_own(s.holders, id, mode);
    if mode == LockMode::Write {
        assert(h1.dom() =~= Set::<u32>::empty());
    } else if blocks_reader(s.holders, id) {
        let w = choose|w: u32| #[trigger] s.holders.contains_key(w) && w != id && s.holders[w] == LockMode::Write;
        assert(s.holders[w] == LockMode::Read);
    }
}

/// A request that has to wait gets the next ticket, joins the back of the
/// queue behind every request already there, and leaves its client holding
/// nothing.
pub proof fn lemma_blocked_request_queues(s: LockerView, id: u32, mode: LockMode)
    requires
        request_step(s, id, mode).1.grant == Grant::Blocked,
    ensures
        request_step(s, id, mode).1.ticket == Some(s.next_ticket as u64),
        request_step(s, id, mode).0.queue.len() == s.queue.len() + 1,
        request_step(s, id, mode).0.queue.subrange(0, s.queue.len() as int) == s.queue,
        request_step(s, id, mode).0.queue.last() == (Waiter { ticket: s.next_ticket as u64, id: id, mode: mode }),
        request_step(s, id, mode).0.next_ticket == s.next_ticket + 1,
        !request_step(s, id, mode).0.holders.contains_key(id),
{
    let q1 = request_step(s, id, mode).0.queue;
    assert(q1.subrange(0, s.queue.len() as int) =~= s.queue);
}

/// The request at the head of the queue is granted on its retry as soon as
/// the holders allow it, whatever waits behind it: a reader when nobody else
/// writes (so readers queued before a writer share the lock), a writer when
/// nobody else holds anything. It then holds the lock it asked for, leaves
/// the queue, and every other client keeps its lock.
pub proof fn lemma_compatible_head_granted(s: LockerView, k: u32)
    requires
        s.queue.len() > 0,
        s.queue[0].mode == LockMode::Read ==> forall|c: u32|
            #[trigger] s.holders.contains_key(c) && c != s.queue[0].id ==> s.holders[c] == LockMode::Read,
        s.queue[0].mode == LockMode::Write ==> forall|c: u32|
            #[trigger] s.holders.contains_key(c) ==> c == s.queue[0].id,
    ensures
        ({
            let w = s.queue[0];
            let (s1, o) = retry_step(s, w.ticket);
            &&& o.grant == Grant::Acquired
            &&& s1.holders.contains_key(w.id)
            &&& s1.holders[w.id] == w.mode
            &&& s1.queue == s.queue.drop_first()
            &&& (k != w.id ==> s1.holders.contains_key(k) == s.holders.contains_key(k))
            &&& (k != w.id && s.holders.contains_key(k) ==> s1.holders[k] == s.holders[k])
        }),
{
    let w = s.queue[0];
    let h = s.holders;
    if w.mode == LockMode::Write {
        assert(h.remove(w.id).dom() =~= Set::<u32>::empty());
    } else if blocks_reader(h, w.id) {
        let x = choose|x: u32| #[trigger] h.contains_key(x) && x != w.id && h[x] == LockMode::Write;
        assert(h[x] == LockMode::Read);
    }
}

/// The holders let the request at the head of the queue go: nobody else
/// writes when it asks for a read lock, and nobody else holds anything when
/// it asks for the write lock.
pub open spec fn head_may_go(s: LockerView) -> bool {
    &&& s.queue[0].mode == LockMode::Read ==> forall|c: u32|
        #[trigger] s.holders.contains_key(c) && c != s.queue[0].id ==> s.holders[c] == LockMode::Read
    &&& s.queue[0].mode == LockMode::Write ==> forall|c: u32|
        #[trigger] s.holders.contains_key(c) ==> c == s.queue[0].id
}

/// A request that gives up a lock the client held, and a retry that lets a
/// waiting request through, ask the waiting requests to try again; a request
/// by a client that held nothing disturbs nobody.
pub proof fn lemma_wakes_waiters(s: LockerView, id: u32, mode: LockMode, ticket: u64)
    ensures
        s.holders.contains_key(id) && s.holders[id] != mode ==> request_step(s, id, mode).1.wakes_waiters,
        !s.holders.contains_key(id) ==> !request_step(s, id, mode).1.wakes_waiters,
        retry_step(s, ticket).1.grant == Grant::Acquired ==> retry_step(s, ticket).1.wakes_waiters,
{
}

/// A retry with a ticket that does not head the queue changes nothing and
/// keeps waiting.
pub proof fn lemma_retry_not_head_waits(s: LockerView, ticket: u64)
    requires
        s.queue.len() == 0 || s.queue[0].ticket != ticket,
    ensures
        retry_step(s, ticket).0 == s,
        retry_step(s, ticket).1.grant == Grant::Blocked,
        retry_step(s, ticket).1.ticket == Some(ticket),
{
}

/// Releasing takes exactly the releasing client out of the table: it holds
/// nothing afterwards, every other client keeps its lock, and the queue is
/// untouched.
pub proof fn lemma_unlock_releases_only_self(s: LockerView, id: u32, k: u32)
    ensures
        !unlock_step(s, id).0.holders.contains_key(id),
        unlock_step(s, id).0.queue == s.queue,
        k != id ==> unlock_step(s, id).0.holders.contains_key(k) == s.holders.contains_key(k),
        k != id && s.holders.contains_key(k) ==> unlock_step(s, id).0.holders[k] == s.holders[k],
{
}

/// A release that leaves nobody holding and nobody waiting starts the
/// expiration timer.
pub proof fn lemma_last_release_starts_timer(s: LockerView, id: u32)
    requires
        s.holders.contains_key(id),
        forall|k: u32| #[trigger] s.holders.contains_key(k) ==> k == id,
        s.queue.len() == 0,
    ensures
        unlock_step(s, id).1 == Some(TimerStateSignal::Start),
{
    assert(s.holders.remove(id).dom() =~= Set::<u32>::empty());
}

} // verus!
