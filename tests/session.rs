use rollback_netcode::session::{next_phase, MatchEvent, MatchPhase};

#[test]
fn match_runs_corrects_and_replays() {
    let mut p = MatchPhase::Idle;
    p = next_phase(p, MatchEvent::Start);
    assert_eq!(p, MatchPhase::Simulating { frame: 0 });
    for _ in 0..5 {
        p = next_phase(p, MatchEvent::Advance);
    }
    assert_eq!(p, MatchPhase::Simulating { frame: 5 });
    p = next_phase(p, MatchEvent::CorrectionRequested { to: 2 });
    assert_eq!(p, MatchPhase::Restoring { frame: 2 });
    p = next_phase(p, MatchEvent::Advance);
    assert_eq!(p, MatchPhase::Restoring { frame: 2 });
    p = next_phase(p, MatchEvent::Restored);
    assert_eq!(p, MatchPhase::Simulating { frame: 2 });
}

#[test]
fn correction_to_a_future_frame_is_ignored() {
    let p = MatchPhase::Simulating { frame: 3 };
    assert_eq!(next_phase(p, MatchEvent::CorrectionRequested { to: 4 }), p);
    assert_eq!(next_phase(p, MatchEvent::CorrectionRequested { to: -1 }), p);
    assert_eq!(next_phase(MatchPhase::Idle, MatchEvent::Advance), MatchPhase::Idle);
}

#[test]
fn desynced_is_terminal() {
    let p = next_phase(MatchPhase::Simulating { frame: 9 }, MatchEvent::Fatal);
    assert_eq!(p, MatchPhase::Desynced);
    for e in [
        MatchEvent::Start,
        MatchEvent::Advance,
        MatchEvent::CorrectionRequested { to: 0 },
        MatchEvent::Restored,
        MatchEvent::Fatal,
    ] {
        assert_eq!(next_phase(p, e), MatchPhase::Desynced);
    }
}

#[test]
fn last_frame_does_not_overflow() {
    let p = MatchPhase::Simulating { frame: i32::MAX };
    assert_eq!(next_phase(p, MatchEvent::Advance), p);
}
