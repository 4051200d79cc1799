//! Locking and proxying logic for a toolchain installation shared by many
//! cooperating processes: the wire protocol between clients and the locker
//! service, the locker's reader/writer bookkeeping, its expiration timer,
//! and the decisions of the proxy and toolchain front ends.
use vstd::prelude::*;

pub mod client_table;
pub mod command;
pub mod flock;
pub mod locker;
pub mod nargo;
pub mod net;
pub mod nustup;
pub mod protocol;
pub mod timer;

pub use net::localhost;

verus! {

/// Name of the environment variable through which a process hands its lock
/// identity down to the subprocesses it launches.
pub const RUSTUP_LOCK_ID: &'static str = "RUSTUP_LOCK_ID";

} // verus!
