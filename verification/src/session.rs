//! The life of a session: connecting, open, and closed or failed for good.

use vstd::prelude::*;

use crate::terminal::ProcessInputResult;

verus! {

/// Where a session is in its life.
#[derive(Clone, Copy, Debug, PartialEq, Eq, Structural)]
pub enum SessionPhase {
    /// The pseudo-terminal is being started.
    Connecting,
    /// The reader is running; input is processed and writes are accepted.
    Open,
    /// The child process has exited or the stream has ended.
    Closed,
    /// The pseudo-terminal could not be started.
    Failed,
}

impl SessionPhase {
    /// A session is over once it is closed or has failed; only a new
    /// session leaves these phases.
    pub open spec fn is_over(self) -> bool {
        self == SessionPhase::Closed || self == SessionPhase::Failed
    }

    /// The phase after the start of the pseudo-terminal has ended.
    pub open spec fn spec_on_spawn(self, succeeded: bool) -> SessionPhase {
        if self == SessionPhase::Connecting {
            if succeeded {
                SessionPhase::Open
            } else {
                SessionPhase::Failed
            }
        } else {
            self
        }
    }

    /// The phase after a poll: an open session closes when the stream has
    /// ended or the child is no longer alive.
    pub open spec fn spec_on_poll(self, result: ProcessInputResult, alive: bool) -> SessionPhase {
        if self == SessionPhase::Open && (result.pty_closed || !alive) {
            SessionPhase::Closed
        } else {
            self
        }
    }

    /// The phase of a session that has just been asked for.
    pub fn new() -> (phase: Self)
        ensures
            phase == SessionPhase::Connecting,
    {
        SessionPhase::Connecting
    }

    /// Takes note that the start of the pseudo-terminal succeeded or failed.
    pub fn on_spawn(self, succeeded: bool) -> (next: Self)
        ensures
            next == self.spec_on_spawn(succeeded),
            self.is_over() ==> next == self,
    {
        match self {
            SessionPhase::Connecting => if succeeded {
                SessionPhase::Open
            } else {
                SessionPhase::Failed
            },
            other => other,
        }
    }

    /// Takes note of what a poll met and of whether the child is alive.
    pub fn on_poll(self, result: ProcessInputResult, alive: bool) -> (next: Self)
        ensures
            next == self.spec_on_poll(result, alive),
            self.is_over() ==> next == self,
    {
        match self {
            SessionPhase::Open => if result.pty_closed || !alive {
                SessionPhase::Closed
            } else {
                SessionPhase::Open
            },
            other => other,
        }
    }

    /// Whether input is processed and writes are accepted.
    pub fn is_open(self) -> (open: bool)
        ensures
            open == (self == SessionPhase::Open),
    {
        match self {
            SessionPhase::Open => true,
            _ => false,
        }
    }
}

/// No event leaves a session that is over: whatever start result and poll
/// follow, in either order, a closed or failed session stays as it is.
pub proof fn lemma_over_is_final(
    phase: SessionPhase,
    succeeded: bool,
    result: ProcessInputResult,
    alive: bool,
)
    requires
        phase.is_over(),
    ensures
        phase.spec_on_spawn(succeeded) == phase,
        phase.spec_on_poll(result, alive) == phase,
        phase.spec_on_spawn(succeeded).spec_on_poll(result, alive) == phase,
        phase.spec_on_poll(result, alive).spec_on_spawn(succeeded) == phase,
{
}

} // verus!
