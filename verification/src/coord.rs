//! The execution coordinator: serializes every invocation of the tool,
//! either through the tool's own blocking wait flag or through an advisory
//! file lock with busy retry, and hands the raw process outcome back to the
//! caller.
//!
//! The caller injects the two outside capabilities — taking one non-blocking
//! shot at the lock, and launching the subprocess — as closures; the
//! coordinator owns the decisions: which strategy runs, when the wait flag is
//! appended and where, when an attempt is retried, and that the lock is given
//! up on every path once it was taken.

use vstd::prelude::*;

use crate::error::RunError;
use crate::text::{lemma_views_of_push, views_of};
use crate::tool::{IPTables, Invocation, ToolKind};

verus! {

/// The two mutually exclusive serialization strategies.
#[derive(Clone, Copy, PartialEq, Eq, Structural, Debug)]
pub enum Mode {
    /// The tool blocks internally behind its own wait flag.
    NativeWait,
    /// An advisory file lock serializes the launches externally.
    AdvisoryLock,
}

/// The strategy that a handle selects: native wait exactly when the tool
/// offers the wait flag.
pub open spec fn spec_mode(h: IPTables) -> Mode {
    if h.has_wait {
        Mode::NativeWait
    } else {
        Mode::AdvisoryLock
    }
}

impl IPTables {
    /// Selects the serialization strategy for this handle.
    pub fn select_mode(&self) -> (m: Mode)
        ensures
            m == spec_mode(*self),
    {
        if self.has_wait {
            Mode::NativeWait
        } else {
            Mode::AdvisoryLock
        }
    }
}

/// Mode selection is pure and deterministic: it reads nothing but the
/// handle's capability record, so two handles with the same record select
/// the same strategy, every time.
pub proof fn lemma_mode_selection_deterministic(h1: IPTables, h2: IPTables)
    requires
        h1.has_wait == h2.has_wait,
    ensures
        spec_mode(h1) == spec_mode(h2),
{
}

/// The raw outcome of one terminated subprocess.  A non-zero exit is not an
/// error at this layer: it is reported through the success flag.
#[derive(Clone, PartialEq, Eq, Debug)]
pub struct InvocationResult {
    /// The subprocess exited successfully.
    pub success: bool,
    /// The captured standard output.
    pub stdout: Vec<u8>,
    /// The captured standard error.
    pub stderr: Vec<u8>,
}

/// What one non-blocking shot at the advisory lock yielded.
#[derive(Clone, Copy, PartialEq, Eq, Structural, Debug)]
pub enum LockAttempt {
    /// The exclusive lock is now held.
    Acquired,
    /// Another process holds the lock right now.
    Contended,
    /// The attempt failed for another reason; carries the OS errno.
    Failed(i32),
}

/// What to do after one shot at the lock.
#[derive(Clone, Copy, PartialEq, Eq, Structural, Debug)]
pub enum LockStep {
    /// The lock is held: launch the subprocess.
    Proceed,
    /// The lock is contended: take another shot at once, without backoff and
    /// without bound.
    Retry,
    /// The attempt failed for a reason other than contention: give up with
    /// this errno.
    GiveUp(i32),
}

/// The busy-retry rule: only contention is retried; success proceeds, and
/// every other failure gives up at once with its errno.  The decision agrees
/// with the lock machine: it proceeds exactly where the machine reaches the
/// held state, retries exactly where the machine keeps acquiring, and gives
/// up exactly where the machine fails.
pub fn lock_decision(a: &LockAttempt) -> (r: LockStep)
    ensures
        *a == LockAttempt::Acquired ==> r == LockStep::Proceed,
        *a == LockAttempt::Contended ==> r == LockStep::Retry,
        forall|e: i32| *a == LockAttempt::Failed(e) ==> r == LockStep::GiveUp(e),
        r == LockStep::Proceed <==> lock_step(LockState::Acquiring, attempt_event(*a))
            == LockState::Held,
        r == LockStep::Retry <==> lock_step(LockState::Acquiring, attempt_event(*a))
            == LockState::Acquiring,
        r matches LockStep::GiveUp(_) <==> lock_step(LockState::Acquiring, attempt_event(*a))
            == LockState::Failed,
{
    match a {
        LockAttempt::Acquired => LockStep::Proceed,
        LockAttempt::Contended => LockStep::Retry,
        LockAttempt::Failed(e) => LockStep::GiveUp(*e),
    }
}

/// The states of one advisory-lock invocation.
#[derive(Clone, Copy, PartialEq, Eq, Structural, Debug)]
pub enum LockState {
    /// Nothing has happened yet.
    Init,
    /// Shots at the lock are being taken.
    Acquiring,
    /// The lock is held; the subprocess has not started.
    Held,
    /// The subprocess runs under the lock.
    Executing,
    /// The subprocess terminated and the lock was given up.
    Released,
    /// Acquisition failed for a reason other than contention.
    Failed,
}

/// The events that drive one advisory-lock invocation.
#[derive(Clone, Copy, PartialEq, Eq, Structural, Debug)]
pub enum LockEvent {
    /// The call started.
    Begin,
    /// A shot at the lock found it contended.
    Busy,
    /// A shot at the lock succeeded.
    Granted,
    /// A shot at the lock failed for a reason other than contention.
    Denied,
    /// The subprocess was launched.
    Launched,
    /// The subprocess terminated and the lock was given up.
    Exited,
}

/// The transition relation of one advisory-lock invocation.  Events that a
/// state does not expect leave it unchanged.
pub open spec fn lock_step(s: LockState, e: LockEvent) -> LockState {
    match (s, e) {
        (LockState::Init, LockEvent::Begin) => LockState::Acquiring,
        (LockState::Acquiring, LockEvent::Busy) => LockState::Acquiring,
        (LockState::Acquiring, LockEvent::Granted) => LockState::Held,
        (LockState::Acquiring, LockEvent::Denied) => LockState::Failed,
        (LockState::Held, LockEvent::Launched) => LockState::Executing,
        (LockState::Executing, LockEvent::Exited) => LockState::Released,
        _ => s,
    }
}

/// The lock resource is held in this state.
pub open spec fn holds_lock(s: LockState) -> bool {
    s == LockState::Held || s == LockState::Executing
}

/// The event that one shot at the lock reports to the machine.
pub open spec fn attempt_event(a: LockAttempt) -> LockEvent {
    match a {
        LockAttempt::Acquired => LockEvent::Granted,
        LockAttempt::Contended => LockEvent::Busy,
        LockAttempt::Failed(_) => LockEvent::Denied,
    }
}

/// The state after a sequence of events, starting from the initial state.
pub open spec fn trace_state(evs: Seq<LockEvent>) -> LockState
    decreases evs.len(),
{
    if evs.len() == 0 {
        LockState::Init
    } else {
        lock_step(trace_state(evs.drop_last()), evs.last())
    }
}

/// The machine enters the executing state only from the held state, by the
/// launch event: a subprocess is launched only while the lock is held.
pub proof fn lemma_launch_only_while_held(s: LockState, e: LockEvent)
    requires
        lock_step(s, e) == LockState::Executing,
        s != LockState::Executing,
    ensures
        s == LockState::Held,
        e == LockEvent::Launched,
{
}

/// Once the lock has been held, no continuation of the run can end in the
/// failed state: the machine stays between holding the lock and having
/// released it, so the lock is given up on every outcome that follows an
/// acquisition.
pub proof fn lemma_no_failure_after_hold(evs: Seq<LockEvent>, p: Seq<LockEvent>)
    requires
        p.len() <= evs.len(),
        p == evs.subrange(0, p.len() as int),
        holds_lock(trace_state(p)),
    ensures
        holds_lock(trace_state(evs)) || trace_state(evs) == LockState::Released,
        trace_state(evs) != LockState::Failed,
    decreases evs.len() - p.len(),
{
    if p.len() == evs.len() {
        assert(p =~= evs);
    } else {
        let shorter = evs.drop_last();
        assert(p == shorter.subrange(0, p.len() as int));
        lemma_no_failure_after_hold(shorter, p);
    }
}

/// The final argument vector that the coordinator launches: the operation's
/// own arguments, with the wait flag appended last exactly in native-wait
/// mode.
pub open spec fn spec_run_argv(h: IPTables, argv: Seq<Seq<char>>) -> Seq<Seq<char>> {
    if h.has_wait {
        argv.push("--wait"@)
    } else {
        argv
    }
}

/// The launch capability was invoked on the prepared argument vector — the
/// operation's own arguments with the wait flag appended last exactly in
/// native-wait mode — and reported this outcome.
pub open spec fn launch_reported<L: FnOnce(ToolKind, Vec<String>) -> Result<
    InvocationResult,
    String,
>>(launch: L, h: IPTables, inv: Invocation, lr: Result<InvocationResult, String>) -> bool {
    exists|a: Vec<String>|
        views_of(a@) == spec_run_argv(h, views_of(inv.args@)) && #[trigger] call_ensures(
            launch,
            (inv.cmd, a),
            lr,
        )
}

/// Relies on nix::fcntl::flock with the unlock argument: gives up the
/// advisory lock that this process holds on the open descriptor.  The
/// outcome of a failed unlock is ignored: the OS drops the lock with the
/// descriptor in any case, so a release can at worst be late, never lost.
#[verifier::external_body]
fn flock_release(fd: i32) {
    let _ = nix::fcntl::flock(fd, nix::fcntl::FlockArg::Unlock);
}

/// Coordinates one serialized invocation of the tool.
///
/// In native-wait mode the wait flag is appended after the operation's
/// arguments and the subprocess is launched directly.  In advisory-lock mode
/// the injected `acquire` capability must take the exclusive advisory lock
/// on `lock_fd` (busy-retrying contention, as [`lock_decision`] rules),
/// the subprocess runs only once the lock is held, and the lock is given up
/// on every path — subprocess success, subprocess failure, or launch failure
/// — before the call returns.  A failed acquisition is surfaced as a lock
/// failure and nothing is launched; every other advisory-mode outcome
/// certifies that the acquisition succeeded before the launch.
pub fn run<A: FnOnce(i32) -> Result<(), i32>, L: FnOnce(ToolKind, Vec<String>) -> Result<
    InvocationResult,
    String,
>>(h: &IPTables, inv: Invocation, lock_fd: i32, acquire: A, launch: L) -> (r: Result<
    InvocationResult,
    RunError,
>)
    requires
        call_requires(acquire, (lock_fd,)),
        forall|k: ToolKind, a: Vec<String>| #[trigger] call_requires(launch, (k, a)),
    ensures
        r matches Ok(out) ==> launch_reported(
            launch,
            *h,
            inv,
            Ok::<InvocationResult, String>(out),
        ),
        r matches Err(RunError::SpawnFailure(m)) ==> launch_reported(
            launch,
            *h,
            inv,
            Err::<InvocationResult, String>(m),
        ),
        r matches Err(RunError::LockFailure(e)) ==> spec_mode(*h) == Mode::AdvisoryLock
            && call_ensures(acquire, (lock_fd,), Err::<(), i32>(e)),
        spec_mode(*h) == Mode::AdvisoryLock && !(r matches Err(RunError::LockFailure(_)))
            ==> call_ensures(acquire, (lock_fd,), Ok::<(), i32>(())),
{
    let ghost launch0 = launch;
    let ghost acquire0 = acquire;
    let ghost inv0 = inv;
    let Invocation { cmd, args } = inv;
    let mut args = args;
    if h.has_wait {
        let wait_flag = "--wait".to_owned();
        proof {
            lemma_views_of_push(args@, wait_flag);
        }
        args.push(wait_flag);
        let ghost launched_args = args;
        let res = launch(cmd, args);
        proof {
            assert(views_of(launched_args@) =~~= spec_run_argv(*h, views_of(inv.args@)));
        }
        match res {
            Ok(out) => {
                proof {
                    assert(call_ensures(
                        launch0,
                        (inv0.cmd, launched_args),
                        Ok::<InvocationResult, String>(out),
                    ));
                    assert(launch_reported(
                        launch0,
                        *h,
                        inv0,
                        Ok::<InvocationResult, String>(out),
                    ));
                }
                Ok(out)
            },
            Err(m) => {
                proof {
                    assert(call_ensures(
                        launch0,
                        (inv0.cmd, launched_args),
                        Err::<InvocationResult, String>(m),
                    ));
                    assert(launch_reported(
                        launch0,
                        *h,
                        inv0,
                        Err::<InvocationResult, String>(m),
                    ));
                }
                Err(RunError::SpawnFailure(m))
            },
        }
    } else {
        let ghost mut st = lock_step(LockState::Init, LockEvent::Begin);
        proof {
            assert(st == LockState::Acquiring);
        }
        let acquired = acquire(lock_fd);
        proof {
            assert(call_ensures(acquire0, (lock_fd,), acquired));
        }
        match acquired {
            Err(e) => {
                proof {
                    st = lock_step(st, LockEvent::Denied);
                    assert(st == LockState::Failed);
                    assert(!holds_lock(st));
                }
                return Err(RunError::LockFailure(e));
            },
            Ok(u) => {
                proof {
                    st = lock_step(st, LockEvent::Granted);
                    assert(st == LockState::Held);
                    assert(holds_lock(st));
                    assert(acquired == Ok::<(), i32>(u));
                    assert(call_ensures(acquire0, (lock_fd,), Ok::<(), i32>(())));
                }
            },
        }
        proof {
            st = lock_step(st, LockEvent::Launched);
            assert(st == LockState::Executing);
            assert(holds_lock(st));
        }
        let ghost launched_args = args;
        let res = launch(cmd, args);
        flock_release(lock_fd);
        proof {
            st = lock_step(st, LockEvent::Exited);
            assert(st == LockState::Released);
            assert(views_of(launched_args@) =~~= spec_run_argv(*h, views_of(inv.args@)));
        }
        match res {
            Ok(out) => {
                proof {
                    assert(call_ensures(
                        launch0,
                        (inv0.cmd, launched_args),
                        Ok::<InvocationResult, String>(out),
                    ));
                    assert(launch_reported(
                        launch0,
                        *h,
                        inv0,
                        Ok::<InvocationResult, String>(out),
                    ));
                }
                Ok(out)
            },
            Err(m) => {
                proof {
                    assert(call_ensures(
                        launch0,
                        (inv0.cmd, launched_args),
                        Err::<InvocationResult, String>(m),
                    ));
                    assert(launch_reported(
                        launch0,
                        *h,
                        inv0,
                        Err::<InvocationResult, String>(m),
                    ));
                }
                Err(RunError::SpawnFailure(m))
            },
        }
    }
}

} // verus!
