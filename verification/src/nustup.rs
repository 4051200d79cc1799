//! The decisions of the toolchain front end: which lock identity a process
//! uses, what it does with the locker for a given command line, and the exit
//! status it reports.
//!
//! A root front end (one that was not launched by another) takes a fresh
//! identity and is responsible for releasing the lock; a child inherits its
//! parent's identity, and with it the read lock its parent holds.
use std::num::ParseIntError;
use vstd::prelude::*;

use crate::locker::LockMode;

verus! {

/// The error type of integer parsing in the standard library.
#[verifier::external_type_specification]
#[verifier::external_body]
pub struct ExParseIntError(ParseIntError);

/// Whether `c` is an ASCII decimal digit.
pub open spec fn is_digit(c: char) -> bool {
    '0' <= c && c <= '9'
}

/// The number that a string of decimal digits stands for.
pub open spec fn digits_value(s: Seq<char>) -> nat
    decreases s.len(),
{
    if s.len() == 0 {
        0
    } else {
        (digits_value(s.drop_last()) * 10 + (s.last() as int - '0' as int)) as nat
    }
}

/// The digits of a decimal number, after an optional leading `+`.
pub open spec fn unsigned_digits(s: Seq<char>) -> Seq<char> {
    if s.len() > 0 && s[0] == '+' {
        s.drop_first()
    } else {
        s
    }
}

/// The `u32` that `s` spells in decimal: an optional `+` followed by at least
/// one ASCII digit and nothing else, with a value that fits in 32 bits.
pub open spec fn parsed_u32(s: Seq<char>) -> Option<u32> {
    let d = unsigned_digits(s);
    if d.len() > 0 && (forall|i: int| 0 <= i < d.len() ==> is_digit(#[trigger] d[i])) && digits_value(d)
        <= u32::MAX {
        Some(digits_value(d) as u32)
    } else {
        None
    }
}

/// Calls `str::parse::<u32>`. Its documentation (`u32::from_str_radix` with
/// radix 10) accepts exactly an optional `+` sign followed by one or more
/// ASCII digits whose value fits in a `u32`, and returns that value; any
/// other string gives an error. Which kind of error is not stated here.
#[verifier::external_body]
fn parse_u32(s: &str) -> (r: Result<u32, ParseIntError>)
    ensures
        r is Ok <==> parsed_u32(s@) is Some,
        r matches Ok(v) ==> parsed_u32(s@) == Some(v),
{
    s.parse::<u32>()
}

/// The ASCII digit for `d`, which is below ten.
pub open spec fn digit_char(d: nat) -> char {
    (48 + d) as char
}

/// The decimal numeral for `n`, most significant digit first, without
/// leading zeros.
pub open spec fn decimal(n: nat) -> Seq<char>
    decreases n,
{
    if n < 10 {
        seq![digit_char(n)]
    } else {
        decimal(n / 10).push(digit_char(n % 10))
    }
}

/// Calls `u32::to_string`, which formats the number through its `Display`
/// implementation: the decimal numeral, without sign or leading zeros.
#[verifier::external_body]
fn format_u32(n: u32) -> (s: String)
    ensures
        s@ == decimal(n as nat),
{
    n.to_string()
}

/// The value of the environment variable through which a process hands its
/// lock identity `id` down to its subprocesses: `id` in decimal.
pub fn identity_string(id: u32) -> (s: String)
    ensures
        s@ == decimal(id as nat),
        parsed_u32(s@) == Some(id),
{
    let s = format_u32(id);
    proof {
        lemma_decimal_parses(id as nat);
    }
    s
}

/// A decimal numeral consists of digits only and stands for its number.
pub proof fn lemma_decimal_digits(n: nat)
    ensures
        decimal(n).len() > 0,
        forall|i: int| 0 <= i < decimal(n).len() ==> is_digit(#[trigger] decimal(n)[i]),
        digits_value(decimal(n)) == n,
    decreases n,
{
    let d = decimal(n);
    if n >= 10 {
        lemma_decimal_digits(n / 10);
        assert(d.drop_last() =~= decimal(n / 10));
        assert(d.last() == digit_char(n % 10));
        assert(digit_char(n % 10) as int == 48 + n % 10);
        assert(n == (n / 10) * 10 + n % 10);
        assert('0' as int == 48);
        assert(digits_value(d) == digits_value(d.drop_last()) * 10 + (d.last() as int - '0' as int));
    } else {
        assert(d.drop_last() =~= Seq::<char>::empty());
        assert(digit_char(n) as int == 48 + n);
        assert('0' as int == 48);
        assert(digits_value(d) == digits_value(d.drop_last()) * 10 + (d.last() as int - '0' as int));
    }
}

/// What a parent writes as the lock identity, its child reads back: the
/// decimal numeral of any `u32` parses to that same number.
pub proof fn lemma_decimal_parses(n: nat)
    requires
        n <= u32::MAX,
    ensures
        parsed_u32(decimal(n)) == Some(n as u32),
{
    lemma_decimal_digits(n);
    let d = decimal(n);
    assert(is_digit(d[0]));
    assert(unsigned_digits(d) =~= d);
}

/// Why a lock identity could not be had.
#[derive(Debug)]
pub enum LockIdError {
    /// The inherited identity is not a decimal `u32`; the parser's error.
    NotANumber(ParseIntError),
}

/// The lock identity of a front end and whether it is the root: the identity
/// inherited from the parent process, when there is one, else the process's
/// own id, which makes it the root.
pub fn lock_identity(inherited: Option<String>, pid: u32) -> (r: Result<(u32, bool), LockIdError>)
    ensures
        (match inherited {
            None => r matches Ok(p) && p == (pid, true),
            Some(s) => match parsed_u32(s@) {
                Some(v) => r matches Ok(p) && p == (v, false),
                None => r is Err,
            },
        }),
{
    match inherited {
        None => Ok((pid, true)),
        Some(s) => match parse_u32(s.as_str()) {
            Ok(v) => Ok((v, false)),
            Err(e) => Err(LockIdError::NotANumber(e)),
        },
    }
}

/// One thing the front end does, in order.
#[derive(Clone, Copy, Debug, PartialEq, Eq, Structural)]
pub enum Step {
    /// Acquire the read lock (or downgrade to it) and wait until granted.
    AcquireRead,
    /// Acquire the write lock (or upgrade to it) and wait until granted.
    AcquireWrite,
    /// Release the lock; a failure to do so is ignored.
    Release,
    /// Run the named tool from beside this executable, with the remaining
    /// arguments, as a child that the front end waits for.
    RunDirect,
    /// Run the named tool with the remaining arguments through the proxy
    /// runner, which hands it this process's standard input.
    RunProxied,
}

/// What the front end does when a step fails.
#[derive(Clone, Copy, Debug, PartialEq, Eq, Structural)]
pub enum OnFailure {
    /// Stop at once and report the error: no later step is taken.
    Abort,
    /// Go on with the next step as if the step had succeeded.
    Ignore,
}

/// The failure policy of each step: only a failed release is ignored (the
/// locker forgets a client whose connection goes away, and the lock expires
/// with the locker); a lock that could not be had, or a tool that could not
/// be run, ends the plan.
pub open spec fn failure_policy(step: Step) -> OnFailure {
    match step {
        Step::Release => OnFailure::Ignore,
        _ => OnFailure::Abort,
    }
}

impl Step {
    /// What to do when this step fails.
    pub fn on_failure(self) -> (p: OnFailure)
        ensures
            p == failure_policy(self),
    {
        match self {
            Step::Release => OnFailure::Ignore,
            _ => OnFailure::Abort,
        }
    }
}

/// The exit status the front end reports once its steps are done.
#[derive(Clone, Copy, Debug, PartialEq, Eq, Structural)]
pub enum Exit {
    /// Success.
    Success,
    /// The exit code of the tool it ran.
    ChildCode,
}

/// What the front end does for one command line.
#[derive(Debug)]
pub struct NustupPlan {
    pub steps: Vec<Step>,
    pub exit: Exit,
}

/// Why the front end has nothing to do.
#[derive(Clone, Copy, Debug, PartialEq, Eq, Structural)]
pub enum NustupError {
    /// The command line names no subcommand.
    NoSubcommand,
}

/// The subcommand that modifies the installation and so needs the write lock.
pub open spec fn is_toolchain(head: Seq<char>) -> bool {
    head == "toolchain"@
}

/// The steps of the `toolchain` subcommand: take the write lock, then give it
/// back: a root releases it, a child returns to the read lock it inherited.
pub open spec fn toolchain_steps(is_root: bool) -> Seq<Step> {
    if is_root {
        seq![Step::AcquireWrite, Step::Release]
    } else {
        seq![Step::AcquireWrite, Step::AcquireRead]
    }
}

/// The steps of any other subcommand, which proxies to the tool of that
/// name: a root runs it under a read lock that it takes and releases; a child
/// runs it under the read lock it inherited.
pub open spec fn proxy_steps(is_root: bool) -> Seq<Step> {
    if is_root {
        seq![Step::AcquireRead, Step::RunDirect, Step::Release]
    } else {
        seq![Step::RunProxied]
    }
}

/// Decides what the front end does for the arguments that follow its own
/// name: the `toolchain` subcommand takes the write lock and exits with
/// success; any other runs the tool of that name and exits with its code; an
/// empty command line is refused.
pub fn nustup_plan(args: &Vec<String>, is_root: bool) -> (r: Result<NustupPlan, NustupError>)
    ensures
        r is Err <==> args@.len() == 0,
        r matches Err(e) ==> e == NustupError::NoSubcommand,
        r matches Ok(p) ==> (if is_toolchain(args@[0]@) {
            p.steps@ == toolchain_steps(is_root) && p.exit == Exit::Success
        } else {
            p.steps@ == proxy_steps(is_root) && p.exit == Exit::ChildCode
        }),
{
    if args.len() == 0 {
        return Err(NustupError::NoSubcommand);
    }
    let toolchain = "toolchain".to_owned();
    let mut steps: Vec<Step> = Vec::new();
    if args[0] == toolchain {
        steps.push(Step::AcquireWrite);
        if is_root {
            steps.push(Step::Release);
        } else {
            steps.push(Step::AcquireRead);
        }
        proof {
            assert(steps@ =~= toolchain_steps(is_root));
        }
        Ok(NustupPlan { steps, exit: Exit::Success })
    } else {
        if is_root {
            steps.push(Step::AcquireRead);
            steps.push(Step::RunDirect);
            steps.push(Step::Release);
        } else {
            steps.push(Step::RunProxied);
        }
        proof {
            assert(steps@ =~= proxy_steps(is_root));
        }
        Ok(NustupPlan { steps, exit: Exit::ChildCode })
    }
}

/// The byte reported as exit status for a tool that exited with `code`: the
/// code modulo 256 (its low eight bits), and 0 when the tool had no exit code
/// (it was ended by a signal).
pub fn exit_code(code: Option<i32>) -> (b: u8)
    ensures
        b == (match code {
            Some(c) => c as int,
            None => 0,
        }) % 256,
{
    match code {
        Some(c) => {
            let b = c as u8;
            assert(b as i32 == c % 256) by (bit_vector)
                requires
                    b == c as u8,
            ;
            b
        },
        None => 0u8,
    }
}

/// The lock that a client of this identity holds after taking `steps`,
/// starting from `start`.
pub open spec fn lock_after(steps: Seq<Step>, start: Option<LockMode>) -> Option<LockMode>
    decreases steps.len(),
{
    if steps.len() == 0 {
        start
    } else {
        let before = lock_after(steps.drop_last(), start);
        match steps.last() {
            Step::AcquireRead => Some(LockMode::Read),
            Step::AcquireWrite => Some(LockMode::Write),
            Step::Release => None,
            _ => before,
        }
    }
}

/// The lock a front end starts with: a child holds the read lock of the
/// parent it inherited its identity from; a root holds nothing.
pub open spec fn inherited_lock(is_root: bool) -> Option<LockMode> {
    if is_root {
        None
    } else {
        Some(LockMode::Read)
    }
}

/// Every plan leaves the lock as the front end found it: a root has
/// released everything it took, a child is back to the read lock it
/// inherited.
pub proof fn lemma_plans_restore_lock(is_root: bool)
    ensures
        lock_after(toolchain_steps(is_root), inherited_lock(is_root)) == inherited_lock(is_root),
        lock_after(proxy_steps(is_root), inherited_lock(is_root)) == inherited_lock(is_root),
{
    let t = toolchain_steps(is_root);
    let p = proxy_steps(is_root);
    assert(t.drop_last().drop_last() =~= Seq::<Step>::empty());
    if is_root {
        assert(p.drop_last().drop_last().drop_last() =~= Seq::<Step>::empty());
    } else {
        assert(p.drop_last() =~= Seq::<Step>::empty());
        assert(lock_after(p.drop_last(), inherited_lock(is_root)) == inherited_lock(is_root));
    }
}

/// No tool is run unless its lock was had: in every plan, each step before a
/// run is one whose failure ends the plan, and the only failure that is
/// ever ignored is that of a release.
pub proof fn lemma_runs_follow_successful_steps(is_root: bool, toolchain: bool, i: int, j: int)
    requires
        ({
            let p = if toolchain { toolchain_steps(is_root) } else { proxy_steps(is_root) };
            0 <= i < j < p.len() && (p[j] == Step::RunDirect || p[j] == Step::RunProxied)
        }),
    ensures
        ({
            let p = if toolchain { toolchain_steps(is_root) } else { proxy_steps(is_root) };
            failure_policy(p[i]) == OnFailure::Abort
        }),
{
}

/// A proxied tool runs under a read lock and never under the write lock: a
/// child takes no lock of its own and only runs the tool through the proxy
/// runner, while the root runs it directly between taking and releasing a
/// read lock.
pub proof fn lemma_proxy_plans_read_only(is_root: bool, i: int)
    requires
        0 <= i < proxy_steps(is_root).len(),
    ensures
        proxy_steps(is_root)[i] != Step::AcquireWrite,
        !is_root ==> proxy_steps(is_root)[i] == Step::RunProxied,
        proxy_steps(is_root)[i] == Step::RunDirect ==> is_root,
        is_root ==> proxy_steps(is_root)[0] == Step::AcquireRead && proxy_steps(is_root).last() == Step::Release,
{
}

/// Only a release may fail without ending the plan.
pub proof fn lemma_only_release_failures_ignored(step: Step)
    ensures
        failure_policy(step) == OnFailure::Ignore <==> step == Step::Release,
{
}

/// A proxied tool always runs under the lock: whenever a plan runs a tool,
/// the steps before it have left the front end holding the read lock.
pub proof fn lemma_tools_run_under_read_lock(is_root: bool, i: int)
    requires
        0 <= i < proxy_steps(is_root).len(),
        proxy_steps(is_root)[i] == Step::RunDirect || proxy_steps(is_root)[i] == Step::RunProxied,
    ensures
        lock_after(proxy_steps(is_root).take(i), inherited_lock(is_root)) == Some(LockMode::Read),
{
    let p = proxy_steps(is_root);
    if is_root {
        assert(i == 1);
        assert(p.take(1).drop_last() =~= Seq::<Step>::empty());
    } else {
        assert(i == 0);
        assert(p.take(0) =~= Seq::<Step>::empty());
    }
}

/// The write lock is held across the toolchain subcommand's critical
/// section: the first step takes it, whatever lock the front end started
/// with.
pub proof fn lemma_toolchain_takes_write(is_root: bool)
    ensures
        lock_after(toolchain_steps(is_root).take(1), inherited_lock(is_root)) == Some(LockMode::Write),
{
    assert(toolchain_steps(is_root).take(1).drop_last() =~= Seq::<Step>::empty());
}

} // verus!
