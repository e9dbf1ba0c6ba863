//! The shutdown coordinator's decision logic.
//!
//! The host subscribes to the platform's exit signals and feeds each
//! one to the coordinator: the first publishes the exit-pending state,
//! which makes the dispatcher enqueue the drop event; any further
//! signal forces immediate process exit with code 1.

use vstd::prelude::*;

verus! {

/// What the host does with one exit signal.
#[derive(Debug, Clone, Copy, PartialEq, Eq, Structural)]
pub enum ExitAction {
    /// Publish the exit-pending state; the dispatcher enqueues the
    /// drop event and shutdown begins.
    PublishExitPending,
    /// Force immediate process exit with code 1, whatever the
    /// drop hooks have reached.
    ForceExit,
}

/// The shutdown coordinator: counts the exit signals seen.
#[derive(Debug)]
pub struct ExitCheck {
    pub signals_seen: u32,
}

impl ExitCheck {
    /// A coordinator that has seen no signal.
    pub fn init() -> (r: ExitCheck)
        ensures
            r.signals_seen == 0,
    {
        ExitCheck { signals_seen: 0 }
    }

    /// Decides on one exit signal: the first publishes exit-pending,
    /// every later one forces exit.
    pub fn on_signal(&mut self) -> (r: ExitAction)
        requires
            old(self).signals_seen < u32::MAX,
        ensures
            final(self).signals_seen == old(self).signals_seen + 1,
            r == (if old(self).signals_seen == 0 {
                ExitAction::PublishExitPending
            } else {
                ExitAction::ForceExit
            }),
    {
        let first = self.signals_seen == 0;
        self.signals_seen = self.signals_seen + 1;
        if first {
            ExitAction::PublishExitPending
        } else {
            ExitAction::ForceExit
        }
    }

    /// The process exit code a forced exit uses.
    pub fn forced_exit_code(&self) -> (r: i32)
        ensures
            r == 1,
    {
        1
    }
}

} // verus!
