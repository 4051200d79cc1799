//! Advisory file locks in the manner of `flock(2)`, carried out with the
//! record locks of `fcntl(2)`, which every Unix offers.
use vstd::prelude::*;

use crate::locker::LockMode;

verus! {

/// The operation flags that `flock(2)` takes.
#[derive(Clone, Copy, Debug, PartialEq, Eq, Structural)]
pub struct FlockFlags {
    /// `LOCK_SH`: take a shared lock.
    pub shared: bool,
    /// `LOCK_EX`: take an exclusive lock.
    pub exclusive: bool,
    /// `LOCK_UN`: release the lock.
    pub unlock: bool,
    /// `LOCK_NB`: fail rather than wait when the lock is taken.
    pub nonblocking: bool,
}

/// The kind of record lock that `fcntl(2)` is asked for (`l_type`).
#[derive(Clone, Copy, Debug, PartialEq, Eq, Structural)]
pub enum RecordLock {
    /// `F_RDLCK`: a shared lock.
    Read,
    /// `F_WRLCK`: an exclusive lock.
    Write,
    /// `F_UNLCK`: no lock.
    Unlock,
}

/// The `fcntl(2)` command that sets a record lock.
#[derive(Clone, Copy, Debug, PartialEq, Eq, Structural)]
pub enum SetLockCommand {
    /// `F_SETLKW`: wait until the lock can be taken.
    Wait,
    /// `F_SETLK`: fail at once when the lock is taken.
    NoWait,
}

/// The `fcntl(2)` call that stands for a `flock(2)` call.
#[derive(Clone, Copy, Debug, PartialEq, Eq, Structural)]
pub struct FcntlRequest {
    pub lock: RecordLock,
    pub command: SetLockCommand,
}

impl FlockFlags {
    /// `LOCK_SH`.
    pub fn lock_shared() -> (f: FlockFlags)
        ensures
            f == (FlockFlags { shared: true, exclusive: false, unlock: false, nonblocking: false }),
    {
        FlockFlags { shared: true, exclusive: false, unlock: false, nonblocking: false }
    }

    /// `LOCK_EX`.
    pub fn lock_exclusive() -> (f: FlockFlags)
        ensures
            f == (FlockFlags { shared: false, exclusive: true, unlock: false, nonblocking: false }),
    {
        FlockFlags { shared: false, exclusive: true, unlock: false, nonblocking: false }
    }

    /// `LOCK_SH | LOCK_NB`.
    pub fn try_lock_shared() -> (f: FlockFlags)
        ensures
            f == (FlockFlags { shared: true, exclusive: false, unlock: false, nonblocking: true }),
    {
        FlockFlags { shared: true, exclusive: false, unlock: false, nonblocking: true }
    }

    /// `LOCK_EX | LOCK_NB`.
    pub fn try_lock_exclusive() -> (f: FlockFlags)
        ensures
            f == (FlockFlags { shared: false, exclusive: true, unlock: false, nonblocking: true }),
    {
        FlockFlags { shared: false, exclusive: true, unlock: false, nonblocking: true }
    }

    /// `LOCK_UN`.
    pub fn unlock() -> (f: FlockFlags)
        ensures
            f == (FlockFlags { shared: false, exclusive: false, unlock: true, nonblocking: false }),
    {
        FlockFlags { shared: false, exclusive: false, unlock: true, nonblocking: false }
    }

    /// Whether the flags name an operation at all.
    pub open spec fn names_operation(self) -> bool {
        self.unlock || self.exclusive || self.shared
    }
}

/// The record lock that stands for `flags`: releasing wins over an exclusive
/// lock, which wins over a shared one.
pub open spec fn record_lock_for(flags: FlockFlags) -> RecordLock {
    if flags.unlock {
        RecordLock::Unlock
    } else if flags.exclusive {
        RecordLock::Write
    } else {
        RecordLock::Read
    }
}

/// Translates a `flock(2)` operation into the `fcntl(2)` record-lock request
/// that emulates it: the kind of lock from the operation, and a waiting set
/// unless the operation is nonblocking. Flags that name no operation are
/// refused by the caller's `requires`.
pub fn fcntl_request(flags: FlockFlags) -> (r: FcntlRequest)
    requires
        flags.names_operation(),
    ensures
        r.lock == record_lock_for(flags),
        r.command == (if flags.nonblocking { SetLockCommand::NoWait } else { SetLockCommand::Wait }),
        flags.unlock ==> r.lock == RecordLock::Unlock,
        !flags.unlock && flags.exclusive ==> r.lock == RecordLock::Write,
        !flags.unlock && !flags.exclusive ==> r.lock == RecordLock::Read,
        (r.command == SetLockCommand::NoWait) == flags.nonblocking,
{
    let lock = if flags.unlock {
        RecordLock::Unlock
    } else if flags.exclusive {
        RecordLock::Write
    } else {
        RecordLock::Read
    };
    let command = if flags.nonblocking {
        SetLockCommand::NoWait
    } else {
        SetLockCommand::Wait
    };
    FcntlRequest { lock, command }
}

/// The kind of lock that another process holds, as reported by the
/// `F_GETLK` query of `fcntl(2)`: its `l_type` comes back `F_RDLCK` or
/// `F_WRLCK` when a conflicting lock is held, and `F_UNLCK` when the lock
/// could be taken.
pub fn holder_kind(lock: RecordLock) -> (k: Option<LockMode>)
    ensures
        k == (match lock {
            RecordLock::Read => Some(LockMode::Read),
            RecordLock::Write => Some(LockMode::Write),
            RecordLock::Unlock => None::<LockMode>,
        }),
{
    match lock {
        RecordLock::Read => Some(LockMode::Read),
        RecordLock::Write => Some(LockMode::Write),
        RecordLock::Unlock => None,
    }
}

} // verus!
