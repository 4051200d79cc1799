use playground_common::flock::holder_kind;
use playground_common::locker::LockMode;
use playground_common::command::{split_command, CommandError};
use playground_common::flock::{fcntl_request, FcntlRequest, FlockFlags, RecordLock, SetLockCommand};
use playground_common::nargo::{nargo_action, NargoAction};
use playground_common::net::{SocketAddress, IPV4_LOOPBACK, IPV6_LOOPBACK};
use playground_common::timer::{timer_action, TimerAction, TimerStateSignal};
use playground_common::{localhost, RUSTUP_LOCK_ID};

#[test]
fn localhost_is_v6_then_v4() {
    let addrs = localhost(8080);
    assert_eq!(
        addrs,
        [
            SocketAddress::V6 { ip: 1, port: 8080, flowinfo: 0, scope_id: 0 },
            SocketAddress::V4 { ip: 0x7f00_0001, port: 8080 },
        ]
    );
    assert_eq!(IPV6_LOOPBACK, 1);
    assert_eq!(IPV4_LOOPBACK, (127 << 24) | 1);
}

#[test]
fn lock_id_variable_name() {
    assert_eq!(RUSTUP_LOCK_ID, "RUSTUP_LOCK_ID");
}

#[test]
fn timer_actions() {
    assert_eq!(timer_action(TimerStateSignal::Start, true), TimerAction::Arm);
    assert_eq!(timer_action(TimerStateSignal::Stop, true), TimerAction::Disarm);
    assert_eq!(timer_action(TimerStateSignal::Start, false), TimerAction::Shutdown);
    assert_eq!(timer_action(TimerStateSignal::Stop, false), TimerAction::Shutdown);
}

#[test]
fn flock_flags_translate_to_fcntl() {
    assert_eq!(
        fcntl_request(FlockFlags::lock_shared()),
        FcntlRequest { lock: RecordLock::Read, command: SetLockCommand::Wait }
    );
    assert_eq!(
        fcntl_request(FlockFlags::lock_exclusive()),
        FcntlRequest { lock: RecordLock::Write, command: SetLockCommand::Wait }
    );
    assert_eq!(
        fcntl_request(FlockFlags::try_lock_shared()),
        FcntlRequest { lock: RecordLock::Read, command: SetLockCommand::NoWait }
    );
    assert_eq!(
        fcntl_request(FlockFlags::try_lock_exclusive()),
        FcntlRequest { lock: RecordLock::Write, command: SetLockCommand::NoWait }
    );
    assert_eq!(
        fcntl_request(FlockFlags::unlock()),
        FcntlRequest { lock: RecordLock::Unlock, command: SetLockCommand::Wait }
    );
}

#[test]
fn flock_unlock_wins_over_lock_bits() {
    let flags = FlockFlags { shared: true, exclusive: true, unlock: true, nonblocking: true };
    assert_eq!(
        fcntl_request(flags),
        FcntlRequest { lock: RecordLock::Unlock, command: SetLockCommand::NoWait }
    );
    let flags = FlockFlags { shared: true, exclusive: true, unlock: false, nonblocking: false };
    assert_eq!(fcntl_request(flags).lock, RecordLock::Write);
}

#[test]
fn split_command_head_and_tail() {
    assert_eq!(split_command(vec!["nustup", "nargo", "x"]), Ok(("nustup", vec!["nargo", "x"])));
    assert_eq!(split_command(vec![1]), Ok((1, vec![])));
    assert_eq!(split_command(Vec::<u8>::new()), Err(CommandError::NoArg0));
}

fn strings(v: &[&str]) -> Vec<String> {
    v.iter().map(|s| s.to_string()).collect()
}

#[test]
fn nargo_actions() {
    assert_eq!(nargo_action(&strings(&["rec"])), NargoAction::Recurse);
    assert_eq!(nargo_action(&strings(&["spawn", "x"])), NargoAction::SpawnToolchain);
    assert_eq!(nargo_action(&strings(&["build"])), NargoAction::Idle);
    assert_eq!(nargo_action(&strings(&[])), NargoAction::Idle);
    assert_eq!(nargo_action(&strings(&["x", "rec"])), NargoAction::Idle);
}

#[test]
fn lock_holder_kinds() {
    assert_eq!(holder_kind(RecordLock::Read), Some(LockMode::Read));
    assert_eq!(holder_kind(RecordLock::Write), Some(LockMode::Write));
    assert_eq!(holder_kind(RecordLock::Unlock), None);
}
