//! Cancelable one-shot timer state.
//!
//! The engine drives election and heartbeat deadlines through timers. The
//! scheduling half — waiting out the duration on a thread or a task queue
//! and firing a callback — belongs to the embedding application; what is
//! kept here is the timing value and the shared cancellation flag, whose
//! transitions are exact.
//!
//! Cancellation is best-effort: the application checks [`TimerState::cancelled`]
//! right before firing, so a `cancel` that lands after that check does not
//! stop the callback. Callers must tolerate at most one spurious firing
//! after cancellation, and discard a stale firing by checking whether the
//! term and role it was scheduled for still match the current state.

use vstd::prelude::*;

use crate::Timeout;

verus! {

/// Why a timer was cancelled.
#[derive(Clone, Copy, PartialEq, Eq, Structural, Debug)]
pub enum CancellationReason {
    Unknown,
}

/// The cancellation flag shared between a running timer and its handle.
#[derive(Clone, Copy, PartialEq, Eq, Structural, Debug)]
pub struct TimerState {
    pub cancelled: bool,
    pub reason: Option<CancellationReason>,
}

impl TimerState {
    /// Marks the timer cancelled and records why. Idempotent; once set, the
    /// flag is never cleared.
    pub fn cancel(&mut self, reason: CancellationReason)
        ensures
            *final(self) == (TimerState { cancelled: true, reason: Some(reason) }),
    {
        self.cancelled = true;
        self.reason = Some(reason);
    }
}

/// A one-shot delayed deadline: a duration and the cancellation flag the
/// scheduled firing will consult.
#[derive(Clone, Copy, PartialEq, Eq, Structural, Debug)]
pub struct Timer {
    pub timeout: Timeout,
    pub state: TimerState,
}

impl Timer {
    /// A fresh, uncancelled timer for `timeout` milliseconds.
    pub fn new(timeout: Timeout) -> (r: Timer)
        ensures
            r.timeout == timeout,
            r.state == (TimerState { cancelled: false, reason: None }),
    {
        Timer { timeout, state: TimerState { cancelled: false, reason: None } }
    }

    /// Requests cancellation of the pending firing; best-effort, see the
    /// module description.
    pub fn cancel(&mut self)
        ensures
            *final(self) == (Timer {
                state: TimerState {
                    cancelled: true,
                    reason: Some(CancellationReason::Unknown),
                },
                ..*old(self)
            }),
    {
        self.state.cancel(CancellationReason::Unknown);
    }
}

/// A cancellation handle decoupled from the timer's own lifetime. The
/// application shares the state between handle and firing under its own
/// synchronization; the handle may outlive the [`Timer`] value.
#[derive(Clone, Copy, PartialEq, Eq, Structural, Debug)]
pub struct CancellationToken {
    pub state: TimerState,
}

impl CancellationToken {
    /// Marks the shared flag; a firing that already passed its check still
    /// goes off (documented race).
    pub fn cancel(&mut self, reason: CancellationReason)
        ensures
            *final(self) == (CancellationToken {
                state: TimerState { cancelled: true, reason: Some(reason) },
            }),
    {
        self.state.cancel(reason);
    }
}

} // verus!
