use vstd::prelude::*;
use crate::frame_hash::Frame;

verus! {

/// Where a match stands.
#[derive(Clone, Copy, Debug, PartialEq, Eq, Structural)]
pub enum MatchPhase {
    /// Not started.
    Idle,
    /// About to simulate `frame`, forward or in a replay.
    Simulating { frame: Frame },
    /// Restoring the checkpoint of `frame` before replaying from it.
    Restoring { frame: Frame },
    /// A desync or another fatal error was found; nothing more may be simulated.
    Desynced,
}

/// What happens to a match.
#[derive(Clone, Copy, Debug, PartialEq, Eq, Structural)]
pub enum MatchEvent {
    /// The match begins.
    Start,
    /// The current frame has been simulated.
    Advance,
    /// The session found a misprediction: the world goes back to frame `to`.
    CorrectionRequested { to: Frame },
    /// The checkpoint has been restored.
    Restored,
    /// A fatal error ended the match.
    Fatal,
}

/// The phase after `event`: a match starts at frame zero, advances one frame per
/// simulated frame, goes back to an earlier (or the current) frame on a correction
/// and replays from there once restored, and stays desynced once a fatal error came.
/// Any other event leaves the phase as it is.
pub open spec fn next_phase_spec(phase: MatchPhase, event: MatchEvent) -> MatchPhase {
    match (phase, event) {
        (MatchPhase::Desynced, _) => MatchPhase::Desynced,
        (_, MatchEvent::Fatal) => MatchPhase::Desynced,
        (MatchPhase::Idle, MatchEvent::Start) => MatchPhase::Simulating { frame: 0 },
        (MatchPhase::Simulating { frame }, MatchEvent::Advance) => if frame < Frame::MAX {
            MatchPhase::Simulating { frame: (frame + 1) as Frame }
        } else {
            phase
        },
        (MatchPhase::Simulating { frame }, MatchEvent::CorrectionRequested { to }) => if 0 <= to
            <= frame {
            MatchPhase::Restoring { frame: to }
        } else {
            phase
        },
        (MatchPhase::Restoring { frame }, MatchEvent::Restored) => MatchPhase::Simulating { frame },
        _ => phase,
    }
}

/// Steps the match's phase on `event`.
pub fn next_phase(phase: MatchPhase, event: MatchEvent) -> (r: MatchPhase)
    ensures
        r == next_phase_spec(phase, event),
{
    match (phase, event) {
        (MatchPhase::Desynced, _) => MatchPhase::Desynced,
        (_, MatchEvent::Fatal) => MatchPhase::Desynced,
        (MatchPhase::Idle, MatchEvent::Start) => MatchPhase::Simulating { frame: 0 },
        (MatchPhase::Simulating { frame }, MatchEvent::Advance) => if frame < Frame::MAX {
            MatchPhase::Simulating { frame: frame + 1 }
        } else {
            phase
        },
        (MatchPhase::Simulating { frame }, MatchEvent::CorrectionRequested { to }) => if 0 <= to
            && to <= frame {
            MatchPhase::Restoring { frame: to }
        } else {
            phase
        },
        (MatchPhase::Restoring { frame }, MatchEvent::Restored) => MatchPhase::Simulating { frame },
        _ => phase,
    }
}

/// The phase after a sequence of events.
pub open spec fn phase_after(phase: MatchPhase, events: Seq<MatchEvent>) -> MatchPhase
    decreases events.len(),
{
    if events.len() == 0 {
        phase
    } else {
        next_phase_spec(phase_after(phase, events.drop_last()), events.last())
    }
}

/// Once desynced, a match stays desynced whatever happens next.
pub proof fn lemma_desync_is_terminal(events: Seq<MatchEvent>)
    ensures
        phase_after(MatchPhase::Desynced, events) == MatchPhase::Desynced,
    decreases events.len(),
{
    if events.len() > 0 {
        lemma_desync_is_terminal(events.drop_last());
    }
}

} // verus!
