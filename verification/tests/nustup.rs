use playground_common::nustup::OnFailure;
use playground_common::nustup::{exit_code, identity_string, lock_identity, nustup_plan, Exit, NustupError, Step};

fn strings(v: &[&str]) -> Vec<String> {
    v.iter().map(|s| s.to_string()).collect()
}

#[test]
fn root_identity_is_own_pid() {
    assert_eq!(lock_identity(None, 4321).unwrap(), (4321, true));
}

#[test]
fn inherited_identity_is_parsed() {
    assert_eq!(lock_identity(Some("42".to_string()), 1).unwrap(), (42, false));
    assert_eq!(lock_identity(Some("+7".to_string()), 1).unwrap(), (7, false));
    assert_eq!(lock_identity(Some("0004294967295".to_string()), 1).unwrap(), (u32::MAX, false));
}

#[test]
fn bad_inherited_identity_is_error() {
    for s in ["", "+", "-1", "abc", " 1", "1 ", "4294967296", "12a"] {
        assert!(lock_identity(Some(s.to_string()), 1).is_err(), "{s:?}");
    }
}

#[test]
fn toolchain_root_plan() {
    let p = nustup_plan(&strings(&["toolchain", "install"]), true).unwrap();
    assert_eq!(p.steps, vec![Step::AcquireWrite, Step::Release]);
    assert_eq!(p.exit, Exit::Success);
}

#[test]
fn toolchain_child_plan() {
    let p = nustup_plan(&strings(&["toolchain"]), false).unwrap();
    assert_eq!(p.steps, vec![Step::AcquireWrite, Step::AcquireRead]);
    assert_eq!(p.exit, Exit::Success);
}

#[test]
fn proxy_root_plan() {
    let p = nustup_plan(&strings(&["nargo", "rec"]), true).unwrap();
    assert_eq!(p.steps, vec![Step::AcquireRead, Step::RunDirect, Step::Release]);
    assert_eq!(p.exit, Exit::ChildCode);
}

#[test]
fn proxy_child_plan() {
    let p = nustup_plan(&strings(&["nalyzer"]), false).unwrap();
    assert_eq!(p.steps, vec![Step::RunProxied]);
    assert_eq!(p.exit, Exit::ChildCode);
    let p = nustup_plan(&strings(&["toolchains"]), false).unwrap();
    assert_eq!(p.steps, vec![Step::RunProxied]);
}

#[test]
fn empty_command_line_is_refused() {
    assert_eq!(nustup_plan(&vec![], true).unwrap_err(), NustupError::NoSubcommand);
    assert_eq!(nustup_plan(&vec![], false).unwrap_err(), NustupError::NoSubcommand);
}

#[test]
fn exit_codes_keep_low_byte() {
    assert_eq!(exit_code(Some(0)), 0);
    assert_eq!(exit_code(Some(3)), 3);
    assert_eq!(exit_code(Some(259)), 3);
    assert_eq!(exit_code(Some(-1)), 255);
    assert_eq!(exit_code(None), 0);
}

#[test]
fn identity_string_is_decimal() {
    assert_eq!(identity_string(0), "0");
    assert_eq!(identity_string(42), "42");
    assert_eq!(identity_string(u32::MAX), "4294967295");
}

#[test]
fn child_reads_back_parent_identity() {
    for id in [0u32, 7, 10, 1234, 99_999, u32::MAX] {
        assert_eq!(lock_identity(Some(identity_string(id)), 1).unwrap(), (id, false));
    }
}

#[test]
fn only_release_failures_are_ignored() {
    assert_eq!(Step::Release.on_failure(), OnFailure::Ignore);
    for s in [Step::AcquireRead, Step::AcquireWrite, Step::RunDirect, Step::RunProxied] {
        assert_eq!(s.on_failure(), OnFailure::Abort);
    }
}
