//! The phases of a session.
//!
//! ```text
//!   AwaitingStabilization
//!     |
//!     +--- gate opens (N healthy seconds) ---> Recording
//!     |
//!     +--- 180 s timeout or cancellation ---> Cancelled
//!
//!   Recording
//!     |
//!     +--- /stop or auto-stop ---> Finalizing ---> (actor exits)
//!     |
//!     +--- catastrophic failure ---> Restarting ---> (a new session)
//! ```

use crate::time::{utc_now, Timestamp};
use vstd::prelude::*;

verus! {

/// The phase of a session.
#[derive(Debug, Clone, Copy, PartialEq, Eq, Structural)]
pub enum Phase {
    /// Voice is attached and everything is cached; the stabilization gate has
    /// not opened.
    AwaitingStabilization { entered_at: Timestamp },
    /// The stabilization gate has opened; accepted audio goes straight to the
    /// data API.
    Recording { gate_opened_at: Timestamp },
    /// The recording was stopped and is being wound up.
    Finalizing,
    /// The recording failed and a successor is about to start.
    Restarting,
    /// The stabilization gate never opened, or the session was called off.
    Cancelled,
}

impl Phase {
    pub open spec fn recording(self) -> bool {
        self is Recording
    }

    pub open spec fn stoppable(self) -> bool {
        self is AwaitingStabilization || self is Recording
    }

    /// The instants that the phase carries lie in the calendar range.
    pub open spec fn wf(self) -> bool {
        match self {
            Phase::AwaitingStabilization { entered_at } => entered_at.wf(),
            Phase::Recording { gate_opened_at } => gate_opened_at.wf(),
            _ => true,
        }
    }

    /// The name of the phase.
    pub open spec fn name(self) -> Seq<char> {
        match self {
            Phase::AwaitingStabilization { .. } => "awaiting_stabilization"@,
            Phase::Recording { .. } => "recording"@,
            Phase::Finalizing => "finalizing"@,
            Phase::Restarting => "restarting"@,
            Phase::Cancelled => "cancelled"@,
        }
    }

    /// The name of the phase.
    pub fn label(&self) -> (l: &'static str)
        ensures
            l@ == self.name(),
    {
        match self {
            Phase::AwaitingStabilization { .. } => "awaiting_stabilization",
            Phase::Recording { .. } => "recording",
            Phase::Finalizing => "finalizing",
            Phase::Restarting => "restarting",
            Phase::Cancelled => "cancelled",
        }
    }

    /// Whether `/stop` can act on the session.
    pub fn is_stoppable(&self) -> (b: bool)
        ensures
            b == self.stoppable(),
    {
        match self {
            Phase::AwaitingStabilization { .. } => true,
            Phase::Recording { .. } => true,
            _ => false,
        }
    }

    pub fn is_recording(&self) -> (b: bool)
        ensures
            b == self.recording(),
    {
        match self {
            Phase::Recording { .. } => true,
            _ => false,
        }
    }

    /// Whether the session is on its way out.
    pub fn is_terminal(&self) -> (b: bool)
        ensures
            b == !self.stoppable(),
    {
        !self.is_stoppable()
    }

    /// The nanoseconds from the start of the phase to `now`, for the phases that
    /// carry their start.
    pub open spec fn span_until(self, now: Timestamp) -> int {
        match self {
            Phase::AwaitingStabilization { entered_at } => now.as_nanos() - entered_at.as_nanos(),
            Phase::Recording { gate_opened_at } => now.as_nanos() - gate_opened_at.as_nanos(),
            _ => 0,
        }
    }

    /// The nanoseconds from the start of the phase to `now`; zero for the phases
    /// that do not carry their start.
    pub fn time_in_phase_at(&self, now: Timestamp) -> (nanos: i128)
        requires
            self.wf(),
            now.wf(),
        ensures
            nanos == self.span_until(now),
    {
        match self {
            Phase::AwaitingStabilization { entered_at } => nanos_between(entered_at, &now),
            Phase::Recording { gate_opened_at } => nanos_between(gate_opened_at, &now),
            _ => 0,
        }
    }

    /// The nanoseconds from the start of the phase to this moment.
    pub fn time_in_phase(&self) -> (nanos: i128)
        requires
            self.wf(),
        ensures
            !self.stoppable() ==> nanos == 0,
            exists|now: Timestamp| now.wf() && nanos == #[trigger] self.span_until(now),
    {
        let now = utc_now();
        self.time_in_phase_at(now)
    }
}

fn nanos_between(from: &Timestamp, to: &Timestamp) -> (nanos: i128)
    requires
        from.wf(),
        to.wf(),
    ensures
        nanos == to.as_nanos() - from.as_nanos(),
{
    (to.secs as i128 - from.secs as i128) * 1_000_000_000 + (to.nanos as i128 - from.nanos as i128)
}

/// The phases tell themselves apart by their names.
pub proof fn law_labels_distinct(a: Phase, b: Phase)
    requires
        a.name() == b.name(),
    ensures
        a is AwaitingStabilization <==> b is AwaitingStabilization,
        a is Recording <==> b is Recording,
        a is Finalizing <==> b is Finalizing,
        a is Restarting <==> b is Restarting,
        a is Cancelled <==> b is Cancelled,
{
    reveal_strlit("awaiting_stabilization");
    reveal_strlit("recording");
    reveal_strlit("finalizing");
    reveal_strlit("restarting");
    reveal_strlit("cancelled");
    assert("awaiting_stabilization"@.len() == 22);
    assert("recording"@.len() == 9);
    assert("finalizing"@.len() == 10);
    assert("restarting"@.len() == 10);
    assert("cancelled"@.len() == 9);
    assert("recording"@[0] == 'r');
    assert("finalizing"@[0] == 'f');
    assert("restarting"@[0] == 'r');
    assert("cancelled"@[0] == 'c');
}

} // verus!
