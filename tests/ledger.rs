use rollback_netcode::checksum::fletcher16;
use rollback_netcode::error::RollbackError;
use rollback_netcode::frame_hash::{FrameHashes, ValidatableFrame, NULL_FRAME};
use rollback_netcode::input::{encode, PlayerInput};
use rollback_netcode::rollback::{input, MatchState, PhysicsRollbackState};
use rollback_netcode::startup::{startup, MAX_PREDICTION_WINDOW, NUM_PLAYERS};

fn idle() -> PlayerInput {
    PlayerInput {
        angle: 0,
        up: false,
        down: false,
        left: false,
        right: false,
        primary: false,
        secondary: false,
    }
}

#[test]
fn fletcher16_known_values() {
    assert_eq!(fletcher16(b"abcde"), 0xC8F0);
    assert_eq!(fletcher16(b"abcdef"), 0x2057);
    assert_eq!(fletcher16(b"abcdefgh"), 0x0627);
    assert_eq!(fletcher16(&[]), 0);
}

#[test]
fn fletcher16_is_order_sensitive() {
    assert_ne!(fletcher16(&[1, 2]), fletcher16(&[2, 1]));
}

#[test]
fn checkpoint_carries_checksum_of_its_bytes() {
    let c = PhysicsRollbackState::from_serialized(Some(b"abcde".to_vec()));
    assert_eq!(c.rapier_checksum, 0xC8F0);
    assert_eq!(c.rapier_state, Some(b"abcde".to_vec()));
    let e = PhysicsRollbackState::from_serialized(None);
    assert_eq!(e.rapier_checksum, 0);
    assert!(e.rapier_state.is_none());
}

#[test]
fn gate_admits_frames_strictly_older_than_window() {
    let gate = ValidatableFrame { current_frame: 9, window: 8 };
    assert!(gate.is_validatable(0));
    assert!(!gate.is_validatable(1));
    let early = ValidatableFrame { current_frame: 8, window: 8 };
    assert!(!early.is_validatable(0));
    let extreme = ValidatableFrame { current_frame: i32::MIN, window: i32::MAX };
    assert!(!extreme.is_validatable(i32::MIN));
}

#[test]
fn ring_reuses_each_slot_every_capacity_frames() {
    let c: usize = 5;
    let mut ledger = FrameHashes::new(c);
    for f in 0..(3 * c) as i32 {
        ledger.record(f, (f * 10) as u16);
        ledger.confirm(f);
        let slot = f as usize % c;
        assert_eq!(ledger.slot(f), slot);
        assert_eq!(ledger.hashes[slot].frame, f);
        assert_eq!(ledger.hashes[slot].rapier_checksum, (f * 10) as u16);
        assert!(ledger.hashes[slot].confirmed);
        if f as usize >= c {
            assert_ne!(ledger.hashes[slot].frame, f - c as i32);
        }
    }
    for (i, h) in ledger.hashes.iter().enumerate() {
        assert_eq!(h.frame as usize, 2 * c + i);
    }
    let gate = ValidatableFrame { current_frame: 100, window: 8 };
    let mut reported = Vec::new();
    while let Some((f, h)) = ledger.take_report(&gate) {
        assert_eq!(h, (f * 10) as u16);
        reported.push(f);
    }
    assert_eq!(reported, vec![10, 11, 12, 13, 14]);
}

#[test]
fn confirm_of_overwritten_frame_changes_nothing() {
    let mut ledger = FrameHashes::new(4);
    ledger.record(1, 11);
    ledger.record(5, 55);
    ledger.confirm(1);
    assert_eq!(ledger.hashes[1].frame, 5);
    assert!(!ledger.hashes[1].confirmed);
}

#[test]
fn validatable_confirmed_frame_goes_out_in_next_record() {
    let mut state: MatchState = startup();
    state.validatable_frame.window = 8;
    let h0: u16 = 0x3c5a;
    state.frame_simulated(0, h0);
    let r = input(&mut state, idle());
    assert_eq!(r.last_confirmed_frame, NULL_FRAME);
    for frame in 1..9 {
        state.frame_simulated(frame, 0x100 + frame as u16);
        if frame == 1 {
            state.frame_confirmed(0);
        }
        let r = input(&mut state, idle());
        assert_eq!(r.last_confirmed_frame, NULL_FRAME);
        assert_eq!(r.last_confirmed_hash, 0);
    }
    state.frame_simulated(9, 0x109);
    assert!(state.validatable_frame.is_validatable(0));
    let r = input(&mut state, idle());
    assert_eq!(r.last_confirmed_frame, 0);
    assert_eq!(r.last_confirmed_hash, h0);
    assert!(state.hashes.hashes[0].sent);
    let again = input(&mut state, idle());
    assert_eq!(again.last_confirmed_frame, NULL_FRAME);
}

#[test]
fn outgoing_input_is_zero_until_physics_runs() {
    let mut state = startup();
    let mut i = idle();
    i.up = true;
    i.angle = 300;
    assert_eq!(input(&mut state, i).input, 0);
    state.physics_enabled = true;
    assert_eq!(input(&mut state, i).input, encode(i));
}

#[test]
fn first_reportable_entry_is_sent_first() {
    let mut ledger = FrameHashes::new(8);
    ledger.record(3, 33);
    ledger.record(1, 11);
    ledger.record(2, 22);
    ledger.confirm(3);
    ledger.confirm(2);
    let gate = ValidatableFrame { current_frame: 20, window: 8 };
    assert_eq!(ledger.take_report(&gate), Some((2, 22)));
    assert_eq!(ledger.take_report(&gate), Some((3, 33)));
    assert_eq!(ledger.take_report(&gate), None);
}

#[test]
fn peer_checksum_mismatch_is_desync() {
    let mut local = FrameHashes::new(8);
    local.record(5, 0x1234);
    let mut rx = FrameHashes::new(8);
    assert_eq!(rx.receive_report(&local, 5, 0xABCD), Err(RollbackError::Desync { frame: 5 }));
    assert_eq!(rx.hashes[5].frame, NULL_FRAME);
}

#[test]
fn peer_checksum_match_validates() {
    let mut local = FrameHashes::new(8);
    local.record(5, 0x1234);
    let mut rx = FrameHashes::new(8);
    assert_eq!(rx.receive_report(&local, 5, 0x1234), Ok(()));
    assert_eq!(rx.hashes[5].frame, 5);
    assert!(rx.hashes[5].validated);
    assert_eq!(rx.receive_report(&local, 6, 0x9999), Ok(()));
    assert!(!rx.hashes[6].validated);
}

#[test]
fn peer_contradicting_itself_is_desync() {
    let local = FrameHashes::new(8);
    let mut rx = FrameHashes::new(8);
    assert_eq!(rx.receive_report(&local, 3, 7), Ok(()));
    assert_eq!(rx.receive_report(&local, 3, 8), Err(RollbackError::Desync { frame: 3 }));
    assert_eq!(rx.hashes[3].rapier_checksum, 7);
}

#[test]
fn stale_report_is_ledger_inconsistency() {
    let local = FrameHashes::new(8);
    let mut rx = FrameHashes::new(8);
    assert_eq!(rx.receive_report(&local, 10, 1), Ok(()));
    assert_eq!(
        rx.receive_report(&local, 2, 1),
        Err(RollbackError::LedgerInconsistency { held: 10, reported: 2 })
    );
    assert_eq!(rx.receive_report(&local, 18, 4), Ok(()));
    assert_eq!(rx.hashes[2].frame, 18);
}

#[test]
fn startup_state_is_empty() {
    let state = startup();
    assert_eq!(state.hashes.hashes.len(), rollback_netcode::frame_hash::DESYNC_MAX_FRAMES);
    assert!(state.hashes.hashes.iter().all(|h| h.frame == NULL_FRAME));
    assert_eq!(state.rx_hashes.len(), NUM_PLAYERS);
    for ledger in &state.rx_hashes {
        assert_eq!(ledger.hashes.len(), rollback_netcode::frame_hash::DESYNC_MAX_FRAMES);
        assert!(ledger.hashes.iter().all(|h| h.frame == NULL_FRAME));
    }
    assert_eq!(state.validatable_frame.current_frame, 0);
    assert_eq!(state.validatable_frame.window, MAX_PREDICTION_WINDOW);
    assert!(state.local_handles.handles.is_empty());
    assert!(!state.physics_enabled);
}

#[test]
fn largest_frame_lands_in_its_slot() {
    let mut ledger = FrameHashes::new(30);
    ledger.record(i32::MAX, 9);
    assert_eq!(ledger.slot(i32::MAX), 7);
    assert_eq!(ledger.hashes[7].frame, i32::MAX);
    ledger.confirm(i32::MAX);
    assert!(ledger.hashes[7].confirmed);
    let gate = ValidatableFrame { current_frame: i32::MAX, window: -1 };
    assert_eq!(ledger.take_report(&gate), Some((i32::MAX, 9)));
}

#[test]
fn single_slot_ledger_keeps_only_the_newest_frame() {
    let mut ledger = FrameHashes::new(1);
    for f in 0..3 {
        ledger.record(f, f as u16);
        ledger.confirm(f);
    }
    assert_eq!(ledger.hashes.len(), 1);
    assert_eq!(ledger.hashes[0].frame, 2);
}
