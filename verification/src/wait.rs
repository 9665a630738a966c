//! What the tracer makes of a change of state of a traced child.

use crate::failure::TeleError;
use vstd::prelude::*;

verus! {

/// The signal of a trap: what a single step ends in.
pub const SIGTRAP: i32 = 5;

/// The signal that kills.
pub const SIGKILL: i32 = 9;

/// The signal that stops: what a frozen child raises on itself.
pub const SIGSTOP: i32 = 19;

/// How many single steps a restored process takes before it is let go.
pub const WARM_UP_STEPS: u32 = 9999;

/// A change of state of a child, as waiting for the child reports it. The
/// first number of each is the child's process ID, a signal is its number.
#[derive(Debug, Clone, Copy, PartialEq, Eq, Structural)]
pub enum WaitStatus {
    /// The child exited with a code.
    Exited(i32, i32),
    /// A signal killed the child; the flag says whether it dumped core.
    Signaled(i32, i32, bool),
    /// A signal stopped the child.
    Stopped(i32, i32),
    /// A tracing event stopped the child: the signal and the event.
    PtraceEvent(i32, i32, i32),
    /// The child stopped on entering or leaving a system call.
    PtraceSyscall(i32),
    /// The child was continued.
    Continued(i32),
    /// Nothing changed.
    StillAlive,
}

/// On which side of a fork the caller of the freezing fork comes back.
#[derive(Debug, Clone, Copy, PartialEq, Eq, Structural)]
pub enum NormalForkLocation {
    /// In the parent, with the process ID of the frozen child.
    Parent(i32),
    /// In the child, woken; the number is what the waker handed over.
    Woke(i32),
}

/// Judges what the parent saw of the child it forked: the child must have
/// stopped with the stop signal.
pub fn fork_frozen_traced(child: i32, status: WaitStatus) -> (r: Result<
    NormalForkLocation,
    TeleError,
>)
    ensures
        match status {
            WaitStatus::Stopped(_, signal) if signal == SIGSTOP => r == Ok::<
                NormalForkLocation,
                TeleError,
            >(NormalForkLocation::Parent(child)),
            _ => r == Err::<NormalForkLocation, TeleError>(TeleError::ChildNotStopped),
        },
{
    match status {
        WaitStatus::Stopped(_, signal) => {
            if signal == SIGSTOP {
                Ok(NormalForkLocation::Parent(child))
            } else {
                Err(TeleError::ChildNotStopped)
            }
        },
        _ => Err(TeleError::ChildNotStopped),
    }
}

/// Judges what the tracer saw after it let the child run one instruction:
/// the child must have stopped with a trap.
pub fn single_step(status: WaitStatus) -> (r: Result<(), TeleError>)
    ensures
        match status {
            WaitStatus::Stopped(_, signal) if signal == SIGTRAP => r is Ok,
            _ => r == Err::<(), TeleError>(TeleError::StepFailed),
        },
{
    match status {
        WaitStatus::Stopped(_, signal) => {
            if signal == SIGTRAP {
                Ok(())
            } else {
                Err(TeleError::StepFailed)
            }
        },
        _ => Err(TeleError::StepFailed),
    }
}

/// Judges what waiting for the end of a child came to: the exit code, or
/// the failure of a child that did anything but exit.
pub fn wait_for_exit(status: WaitStatus) -> (r: Result<i32, TeleError>)
    ensures
        match status {
            WaitStatus::Exited(_, code) => r == Ok::<i32, TeleError>(code),
            _ => r == Err::<i32, TeleError>(TeleError::NoExitStatus),
        },
{
    match status {
        WaitStatus::Exited(_, code) => Ok(code),
        _ => Err(TeleError::NoExitStatus),
    }
}

} // verus!
