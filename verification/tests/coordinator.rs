use iptables::coord::{lock_decision, run, InvocationResult, LockAttempt, LockStep, Mode};
use iptables::error::RunError;
use iptables::tool::{IPTables, ToolKind};

use nix::errno::Errno;
use nix::fcntl::{flock, open, FlockArg, OFlag};
use nix::sys::stat;
use nix::unistd::close;

fn handle(has_wait: bool) -> IPTables {
    IPTables { cmd: ToolKind::IPv4, has_check: true, has_wait }
}

fn open_lock(path: &str) -> i32 {
    open(path, OFlag::O_CREAT | OFlag::O_RDWR, stat::Mode::from_bits_truncate(0o644)).unwrap()
}

fn attempt(fd: i32) -> LockAttempt {
    match flock(fd, FlockArg::LockExclusiveNonblock) {
        Ok(()) => LockAttempt::Acquired,
        Err(e) if e == Errno::EAGAIN => LockAttempt::Contended,
        Err(e) => LockAttempt::Failed(e as i32),
    }
}

fn acquire(fd: i32) -> Result<(), i32> {
    loop {
        match lock_decision(&attempt(fd)) {
            LockStep::Proceed => return Ok(()),
            LockStep::Retry => continue,
            LockStep::GiveUp(e) => return Err(e),
        }
    }
}

fn echo_args(kind: ToolKind, args: Vec<String>) -> Result<InvocationResult, String> {
    let mut line = match kind {
        ToolKind::IPv4 => "iptables".to_string(),
        ToolKind::IPv6 => "ip6tables".to_string(),
    };
    for a in args {
        line.push(' ');
        line.push_str(&a);
    }
    Ok(InvocationResult { success: true, stdout: line.into_bytes(), stderr: Vec::new() })
}

#[test]
fn mode_selection_is_deterministic() {
    let h = handle(true);
    assert_eq!(h.select_mode(), Mode::NativeWait);
    assert_eq!(h.select_mode(), h.select_mode());
    let h = handle(false);
    assert_eq!(h.select_mode(), Mode::AdvisoryLock);
    assert_eq!(h.select_mode(), h.select_mode());
}

#[test]
fn lock_decision_retries_only_contention() {
    assert_eq!(lock_decision(&LockAttempt::Acquired), LockStep::Proceed);
    assert_eq!(lock_decision(&LockAttempt::Contended), LockStep::Retry);
    assert_eq!(lock_decision(&LockAttempt::Failed(13)), LockStep::GiveUp(13));
}

#[test]
fn native_wait_appends_the_wait_flag_last() {
    let h = handle(true);
    let inv = h.insert("filter", "INPUT", "-p tcp -j ACCEPT", 1);
    let out = run(&h, inv, -1, acquire, echo_args).unwrap();
    assert_eq!(
        String::from_utf8(out.stdout).unwrap(),
        "iptables -t filter -I INPUT 1 -p tcp -j ACCEPT --wait"
    );
}

#[test]
fn advisory_mode_does_not_append_the_wait_flag() {
    let h = handle(false);
    let fd = open_lock("/tmp/xtables_coordinator_a.lock");
    let inv = h.append("filter", "FWD", "-j DROP");
    let out = run(&h, inv, fd, acquire, echo_args).unwrap();
    assert_eq!(String::from_utf8(out.stdout).unwrap(), "iptables -t filter -A FWD -j DROP");
    close(fd).unwrap();
}

#[test]
fn subprocess_runs_only_while_the_lock_is_held() {
    let path = "/tmp/xtables_coordinator_b.lock";
    let h = handle(false);
    let fd = open_lock(path);
    let observer = open_lock(path);
    let launch = move |_k: ToolKind, _a: Vec<String>| {
        // While the fake subprocess runs, a second descriptor on the same
        // lock file must see the lock as contended.
        assert_eq!(attempt(observer), LockAttempt::Contended);
        Ok(InvocationResult { success: false, stdout: Vec::new(), stderr: Vec::new() })
    };
    let out = run(&h, h.flush_table("filter"), fd, acquire, launch).unwrap();
    assert!(!out.success);
    // After the call the lock is free again for any waiter.
    assert_eq!(attempt(observer), LockAttempt::Acquired);
    flock(observer, FlockArg::Unlock).unwrap();
    close(observer).unwrap();
    close(fd).unwrap();
}

#[test]
fn lock_is_released_after_a_failed_launch() {
    let path = "/tmp/xtables_coordinator_c.lock";
    let h = handle(false);
    let fd = open_lock(path);
    let failing = |_k: ToolKind, _a: Vec<String>| Err("tool binary missing".to_string());
    match run(&h, h.flush_table("filter"), fd, acquire, failing) {
        Err(RunError::SpawnFailure(m)) => assert_eq!(m, "tool binary missing"),
        other => panic!("expected a spawn failure, got {:?}", other),
    }
    // The failed launch must not leave the lock behind: a subsequent call
    // acquires it without hanging.
    let out = run(&h, h.flush_table("filter"), fd, acquire, echo_args).unwrap();
    assert!(out.success);
    close(fd).unwrap();
}

#[test]
fn lock_failure_is_surfaced_and_nothing_is_launched() {
    let h = handle(false);
    // A closed descriptor cannot be locked: the attempt reports an errno
    // other than contention and the coordinator gives up at once.
    let path = "/tmp/xtables_coordinator_d.lock";
    let fd = open_lock(path);
    close(fd).unwrap();
    let launch = |_k: ToolKind, _a: Vec<String>| -> Result<InvocationResult, String> {
        panic!("must not launch without the lock");
    };
    match run(&h, h.flush_table("filter"), fd, acquire, launch) {
        Err(RunError::LockFailure(e)) => assert_eq!(e, Errno::EBADF as i32),
        other => panic!("expected a lock failure, got {:?}", other),
    }
}
