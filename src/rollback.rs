use vstd::prelude::*;
use crate::bullet::BulletBundle;
use crate::checksum::{fletcher16, fletcher16_spec};
use crate::constants::{COL_BULLET, COL_FILTER_BULLET};
use crate::error::RollbackError;
use crate::frame_hash::{
    confirmed, received, recorded, report_error, Frame, FrameHash, FrameHashes, ValidatableFrame,
    NULL_FRAME,
};
use crate::input::{decode, decode_spec, encode, encode_spec, PlayerInput};
use crate::spawn::{
    distinct_indices, lemma_claim_order_independent, lemma_min_pos, min_pos, SpawnPool, SpawnSlot,
};

verus! {

/// The session's handle of the player that controls an entity.
#[derive(Clone, Copy, Debug, PartialEq, Eq, Structural)]
pub struct Player {
    pub handle: usize,
}

/// The handles of the players on this machine.
#[derive(Debug)]
pub struct LocalHandles {
    pub handles: Vec<usize>,
}

impl LocalHandles {
    /// No local player yet.
    pub fn new() -> (r: LocalHandles)
        ensures
            r.handles@ == Seq::<usize>::empty(),
    {
        LocalHandles { handles: Vec::new() }
    }

    /// Whether `handle` plays on this machine.
    pub fn contains(&self, handle: usize) -> (r: bool)
        ensures
            r == self.handles@.contains(handle),
    {
        let mut i: usize = 0;
        while i < self.handles.len()
            invariant
                i <= self.handles@.len(),
                forall|j: int| 0 <= j < i ==> self.handles@[j] != handle,
            decreases self.handles@.len() - i,
        {
            if self.handles[i] == handle {
                return true;
            }
            i = i + 1;
        }
        false
    }
}

/// How the session came by a player's input for a frame.
#[derive(Clone, Copy, Debug, PartialEq, Eq, Structural)]
pub enum InputStatus {
    Confirmed,
    Predicted,
    Disconnected,
}

/// What peers exchange for each player and frame: the packed input, and the
/// sender's checksum report for an older frame (`NULL_FRAME` when it reports none).
#[derive(Clone, Copy, Debug, PartialEq, Eq, Structural)]
pub struct GGRSInput {
    pub input: u16,
    pub last_confirmed_hash: u16,
    pub last_confirmed_frame: Frame,
}

/// What the simulation does to one player's entity this frame: move along `movement`
/// (each axis in -1..=1, to be scaled by the movement speed), turn to `facing` when
/// it is given (keep the facing otherwise), and fire `bullet` when it is given.
#[derive(Clone, Copy, Debug, PartialEq, Eq)]
pub struct PlayerCommand {
    pub handle: usize,
    pub movement: (i8, i8),
    pub facing: Option<u16>,
    pub bullet: Option<BulletBundle>,
}

/// State of one match that lives beside the simulated world: the local ledger of
/// frame hashes, one receive-side ledger per player handle (only those of remote
/// players are used), the reporting window, the local players, and whether physics
/// runs yet.
#[derive(Debug)]
pub struct MatchState {
    pub hashes: FrameHashes,
    pub rx_hashes: Vec<FrameHashes>,
    pub validatable_frame: ValidatableFrame,
    pub local_handles: LocalHandles,
    pub physics_enabled: bool,
}

impl MatchState {
    pub open spec fn wf(&self) -> bool {
        &&& self.hashes.wf()
        &&& forall|i: int| 0 <= i < self.rx_hashes@.len() ==> (#[trigger] self.rx_hashes@[i]).wf()
    }

    /// The receive-side ledgers, one per player handle.
    pub open spec fn rx_view(&self) -> Seq<Seq<FrameHash>> {
        self.rx_hashes@.map_values(|l: FrameHashes| l@)
    }

    /// Frame `frame` has just been simulated and its state checksummed: the local
    /// ledger records the checksum, neither confirmed nor sent, and the reporting
    /// window now ends at `frame`.
    pub fn frame_simulated(&mut self, frame: Frame, checksum: u16)
        requires
            old(self).wf(),
            frame >= 0,
        ensures
            final(self).wf(),
            final(self).hashes@ == recorded(old(self).hashes@, frame, checksum),
            final(self).validatable_frame == (ValidatableFrame {
                current_frame: frame,
                ..old(self).validatable_frame
            }),
            final(self).rx_view() == old(self).rx_view(),
            final(self).local_handles.handles@ == old(self).local_handles.handles@,
            final(self).physics_enabled == old(self).physics_enabled,
    {
        self.hashes.record(frame, checksum);
        self.validatable_frame.current_frame = frame;
    }

    /// The session will not correct `frame` any more: its local entry, if still held,
    /// becomes confirmed.
    pub fn frame_confirmed(&mut self, frame: Frame)
        requires
            old(self).wf(),
            frame >= 0,
        ensures
            final(self).wf(),
            final(self).hashes@ == confirmed(old(self).hashes@, frame),
            final(self).validatable_frame == old(self).validatable_frame,
            final(self).rx_view() == old(self).rx_view(),
            final(self).local_handles.handles@ == old(self).local_handles.handles@,
            final(self).physics_enabled == old(self).physics_enabled,
    {
        self.hashes.confirm(frame);
    }
}

/// The record sent for the local player: its packed input once physics runs (zero
/// before), and the report taken from the local ledger, or `NULL_FRAME` and zero.
pub open spec fn outgoing(
    report: Option<(Frame, u16)>,
    physics_enabled: bool,
    local: PlayerInput,
) -> GGRSInput {
    GGRSInput {
        input: if physics_enabled {
            encode_spec(local)
        } else {
            0
        },
        last_confirmed_hash: match report {
            Some(r) => r.1,
            None => 0,
        },
        last_confirmed_frame: match report {
            Some(r) => r.0,
            None => NULL_FRAME,
        },
    }
}

/// The record the local player sends this frame: its packed input, and the first
/// reportable entry of the local ledger, which is marked as sent.
pub fn input(state: &mut MatchState, local: PlayerInput) -> (r: GGRSInput)
    requires
        old(state).wf(),
    ensures
        final(state).wf(),
        final(state).hashes@ == FrameHashes::after_report(
            old(state).hashes@,
            old(state).validatable_frame,
        ),
        final(state).rx_view() == old(state).rx_view(),
        final(state).validatable_frame == old(state).validatable_frame,
        final(state).local_handles.handles@ == old(state).local_handles.handles@,
        final(state).physics_enabled == old(state).physics_enabled,
        r == outgoing(
            FrameHashes::report_of(old(state).hashes@, old(state).validatable_frame),
            old(state).physics_enabled,
            local,
        ),
{
    let gate = state.validatable_frame;
    let report = state.hashes.take_report(&gate);
    let (last_confirmed_frame, last_confirmed_hash) = match report {
        Some(r) => r,
        None => (NULL_FRAME, 0u16),
    };
    let packed = if state.physics_enabled {
        encode(local)
    } else {
        0
    };
    GGRSInput { input: packed, last_confirmed_hash, last_confirmed_frame }
}

/// The input a player's entity follows: the record's input when it is confirmed or
/// predicted, none at all when the player is disconnected.
pub open spec fn resolved_input(record: GGRSInput, status: InputStatus) -> Option<PlayerInput> {
    match status {
        InputStatus::Disconnected => None,
        _ => Some(decode_spec(record.input)),
    }
}

/// Whether a record from `player` carries a report for the receive-side ledger: only
/// remote players' records do, and only when they name a frame.
pub open spec fn carries_report(local_handles: Seq<usize>, player: Player, record: GGRSInput) -> bool {
    !local_handles.contains(player.handle) && record.last_confirmed_frame >= 0
}

/// One player's step of `apply_inputs`, from the receive-side ledgers `rx` (one per
/// handle), the local ledger, the local handles, whether physics runs, and the
/// unclaimed spawn slots: the new receive-side ledgers (only the player's own can
/// change), the slots left, and the command for the entity (none before physics
/// runs), or the fatal error that ends the match.
pub open spec fn player_outcome(
    rx: Seq<Seq<FrameHash>>,
    local: Seq<FrameHash>,
    local_handles: Seq<usize>,
    physics_enabled: bool,
    pool: Seq<SpawnSlot>,
    player: Player,
    record: GGRSInput,
    status: InputStatus,
) -> Result<(Seq<Seq<FrameHash>>, Seq<SpawnSlot>, Option<PlayerCommand>), RollbackError> {
    let reports = carries_report(local_handles, player, record);
    let f = record.last_confirmed_frame;
    let h = record.last_confirmed_hash;
    let mine = rx[player.handle as int];
    if reports && report_error(mine, local, f, h) is Some {
        Err(report_error(mine, local, f, h).unwrap())
    } else {
        let rx2 = if reports {
            rx.update(player.handle as int, received(mine, local, f, h))
        } else {
            rx
        };
        if !physics_enabled {
            Ok((rx2, pool, None))
        } else {
            match resolved_input(record, status) {
                None => Ok(
                    (
                        rx2,
                        pool,
                        Some(
                            PlayerCommand {
                                handle: player.handle,
                                movement: (0, 0),
                                facing: None,
                                bullet: None,
                            },
                        ),
                    ),
                ),
                Some(i) => if !i.primary {
                    Ok(
                        (
                            rx2,
                            pool,
                            Some(
                                PlayerCommand {
                                    handle: player.handle,
                                    movement: i.movement_of(),
                                    facing: Some(i.angle),
                                    bullet: None,
                                },
                            ),
                        ),
                    )
                } else if pool.len() == 0 {
                    Err(RollbackError::SpawnPoolExhausted)
                } else {
                    let k = min_pos(pool);
                    Ok(
                        (
                            rx2,
                            pool.remove(k),
                            Some(
                                PlayerCommand {
                                    handle: player.handle,
                                    movement: i.movement_of(),
                                    facing: Some(i.angle),
                                    bullet: Some(
                                        BulletBundle {
                                            slot: pool[k],
                                            facing: i.angle,
                                            memberships: COL_BULLET,
                                            filter: COL_FILTER_BULLET,
                                        },
                                    ),
                                },
                            ),
                        ),
                    )
                },
            }
        }
    }
}

/// Applies one player's resolved input for this frame. A remote player's checksum
/// report goes to that player's receive-side ledger first; a desync or ledger inconsistency
/// found there ends the step with that error. A disconnected player stands still
/// and keeps its facing. A primary action claims the lowest free spawn slot for a
/// bullet.
pub fn apply_player_input(
    state: &mut MatchState,
    pool: &mut SpawnPool,
    player: Player,
    record: GGRSInput,
    status: InputStatus,
) -> (r: Result<Option<PlayerCommand>, RollbackError>)
    requires
        old(state).wf(),
        player.handle < old(state).rx_hashes@.len(),
    ensures
        final(state).wf(),
        final(state).rx_hashes@.len() == old(state).rx_hashes@.len(),
        final(state).hashes@ == old(state).hashes@,
        final(state).validatable_frame == old(state).validatable_frame,
        final(state).local_handles.handles@ == old(state).local_handles.handles@,
        final(state).physics_enabled == old(state).physics_enabled,
        match player_outcome(
            old(state).rx_view(),
            old(state).hashes@,
            old(state).local_handles.handles@,
            old(state).physics_enabled,
            old(pool)@,
            player,
            record,
            status,
        ) {
            Ok(o) => r == Ok::<Option<PlayerCommand>, RollbackError>(o.2) && final(state).rx_view()
                == o.0 && final(pool)@ == o.1,
            Err(e) => r == Err::<Option<PlayerCommand>, RollbackError>(e),
        },
{
    if !state.local_handles.contains(player.handle) && record.last_confirmed_frame >= 0 {
        let received = state.rx_hashes[player.handle].receive_report(
            &state.hashes,
            record.last_confirmed_frame,
            record.last_confirmed_hash,
        );
        if let Err(e) = received {
            return Err(e);
        }
    }
    if !state.physics_enabled {
        return Ok(None);
    }
    match status {
        InputStatus::Disconnected => Ok(
            Some(PlayerCommand { handle: player.handle, movement: (0, 0), facing: None, bullet: None }),
        ),
        _ => {
            let i = decode(record.input);
            let movement = i.movement_vec();
            if !i.primary {
                Ok(
                    Some(
                        PlayerCommand {
                            handle: player.handle,
                            movement,
                            facing: Some(i.angle),
                            bullet: None,
                        },
                    ),
                )
            } else {
                let slot = pool.claim();
                match slot {
                    Err(e) => Err(e),
                    Ok(slot) => Ok(
                        Some(
                            PlayerCommand {
                                handle: player.handle,
                                movement,
                                facing: Some(i.angle),
                                bullet: Some(BulletBundle::new(i.angle, slot)),
                            },
                        ),
                    ),
                }
            }
        },
    }
}

/// Outcome of `apply_inputs`: each player's step in turn, players in the given order,
/// each reading its own record and status at `inputs[handle]`; the commands in
/// player order, or the first fatal error.
pub open spec fn inputs_outcome(
    rx: Seq<Seq<FrameHash>>,
    local: Seq<FrameHash>,
    local_handles: Seq<usize>,
    physics_enabled: bool,
    pool: Seq<SpawnSlot>,
    players: Seq<Player>,
    inputs: Seq<(GGRSInput, InputStatus)>,
) -> Result<(Seq<Seq<FrameHash>>, Seq<SpawnSlot>, Seq<PlayerCommand>), RollbackError>
    decreases players.len(),
{
    if players.len() == 0 {
        Ok((rx, pool, Seq::empty()))
    } else {
        match inputs_outcome(rx, local, local_handles, physics_enabled, pool, players.drop_last(), inputs) {
            Err(e) => Err(e),
            Ok(o) => {
                let p = players.last();
                let (record, status) = inputs[p.handle as int];
                match player_outcome(o.0, local, local_handles, physics_enabled, o.1, p, record, status) {
                    Err(e) => Err(e),
                    Ok(q) => Ok(
                        (
                            q.0,
                            q.1,
                            match q.2 {
                                Some(c) => o.2.push(c),
                                None => o.2,
                            },
                        ),
                    ),
                }
            },
        }
    }
}

proof fn lemma_error_persists(
    rx: Seq<Seq<FrameHash>>,
    local: Seq<FrameHash>,
    local_handles: Seq<usize>,
    physics_enabled: bool,
    pool: Seq<SpawnSlot>,
    players: Seq<Player>,
    inputs: Seq<(GGRSInput, InputStatus)>,
    j: int,
    m: int,
)
    requires
        0 <= j <= m <= players.len(),
        inputs_outcome(rx, local, local_handles, physics_enabled, pool, players.take(j), inputs) is Err,
    ensures
        inputs_outcome(rx, local, local_handles, physics_enabled, pool, players.take(m), inputs)
            == inputs_outcome(rx, local, local_handles, physics_enabled, pool, players.take(j), inputs),
    decreases m - j,
{
    if m > j {
        lemma_error_persists(rx, local, local_handles, physics_enabled, pool, players, inputs, j, m - 1);
        assert(players.take(m).drop_last() =~= players.take(m - 1));
    }
}

/// Applies every player's input for this frame, in the order of `players` (the
/// entities that players control), each through `apply_player_input`; stops at the
/// first fatal error.
pub fn apply_inputs(
    state: &mut MatchState,
    pool: &mut SpawnPool,
    players: &Vec<Player>,
    inputs: &Vec<(GGRSInput, InputStatus)>,
) -> (r: Result<Vec<PlayerCommand>, RollbackError>)
    requires
        old(state).wf(),
        forall|k: int|
            0 <= k < players@.len() ==> (#[trigger] players@[k]).handle < inputs@.len()
                && players@[k].handle < old(state).rx_hashes@.len(),
    ensures
        final(state).wf(),
        final(state).rx_hashes@.len() == old(state).rx_hashes@.len(),
        final(state).hashes@ == old(state).hashes@,
        final(state).validatable_frame == old(state).validatable_frame,
        final(state).local_handles.handles@ == old(state).local_handles.handles@,
        final(state).physics_enabled == old(state).physics_enabled,
        match inputs_outcome(
            old(state).rx_view(),
            old(state).hashes@,
            old(state).local_handles.handles@,
            old(state).physics_enabled,
            old(pool)@,
            players@,
            inputs@,
        ) {
            Ok(o) => r is Ok && r.unwrap()@ == o.2 && final(state).rx_view() == o.0 && final(pool)@
                == o.1,
            Err(e) => r == Err::<Vec<PlayerCommand>, RollbackError>(e),
        },
{
    let mut commands: Vec<PlayerCommand> = Vec::new();
    let mut k: usize = 0;
    while k < players.len()
        invariant
            state.wf(),
            state.hashes@ == old(state).hashes@,
            state.validatable_frame == old(state).validatable_frame,
            state.local_handles.handles@ == old(state).local_handles.handles@,
            state.physics_enabled == old(state).physics_enabled,
            k <= players@.len(),
            state.rx_hashes@.len() == old(state).rx_hashes@.len(),
            forall|j: int|
                0 <= j < players@.len() ==> (#[trigger] players@[j]).handle < inputs@.len()
                    && players@[j].handle < old(state).rx_hashes@.len(),
            inputs_outcome(
                old(state).rx_view(),
                old(state).hashes@,
                old(state).local_handles.handles@,
                old(state).physics_enabled,
                old(pool)@,
                players@.take(k as int),
                inputs@,
            ) == Ok::<(Seq<Seq<FrameHash>>, Seq<SpawnSlot>, Seq<PlayerCommand>), RollbackError>(
                (state.rx_view(), pool@, commands@),
            ),
        decreases players@.len() - k,
    {
        let player = players[k];
        let (record, status) = inputs[player.handle];
        let step = apply_player_input(state, pool, player, record, status);
        proof {
            assert(players@.take(k + 1).drop_last() =~= players@.take(k as int));
        }
        match step {
            Err(e) => {
                proof {
                    lemma_error_persists(
                        old(state).rx_view(),
                        old(state).hashes@,
                        old(state).local_handles.handles@,
                        old(state).physics_enabled,
                        old(pool)@,
                        players@,
                        inputs@,
                        k + 1,
                        players@.len() as int,
                    );
                    assert(players@.take(players@.len() as int) =~= players@);
                }
                return Err(e);
            },
            Ok(c) => {
                if let Some(c) = c {
                    commands.push(c);
                }
            },
        }
        k = k + 1;
    }
    proof {
        assert(players@.take(k as int) =~= players@);
    }
    Ok(commands)
}

/// Marks every rollback-tracked transform and velocity as changed after a restore,
/// so that the next physics step takes them as authoritative: `changed` holds one
/// flag per tracked component, and all of them end up set.
pub fn force_update_rollbackables(changed: &mut Vec<bool>)
    ensures
        final(changed)@.len() == old(changed)@.len(),
        forall|i: int| 0 <= i < final(changed)@.len() ==> #[trigger] final(changed)@[i],
{
    let mut i: usize = 0;
    while i < changed.len()
        invariant
            changed@.len() == old(changed)@.len(),
            i <= changed@.len(),
            forall|j: int| 0 <= j < i ==> #[trigger] changed@[j],
        decreases changed@.len() - i,
    {
        changed.set(i, true);
        i = i + 1;
    }
}

/// A checkpoint of the physics world: its serialized bytes, if serializing worked,
/// and their checksum.
#[derive(Debug)]
pub struct PhysicsRollbackState {
    pub rapier_state: Option<Vec<u8>>,
    pub rapier_checksum: u16,
}

impl PhysicsRollbackState {
    /// The checkpoint of a serialized world; without bytes, an empty checkpoint with
    /// checksum zero.
    pub fn from_serialized(bytes: Option<Vec<u8>>) -> (r: PhysicsRollbackState)
        ensures
            r.rapier_state == bytes,
            r.rapier_checksum == match bytes {
                Some(b) => fletcher16_spec(b@),
                None => 0,
            },
    {
        match bytes {
            Some(b) => {
                let rapier_checksum = fletcher16(b.as_slice());
                PhysicsRollbackState { rapier_state: Some(b), rapier_checksum }
            },
            None => PhysicsRollbackState { rapier_state: None, rapier_checksum: 0 },
        }
    }
}

/// A disconnected player's step ignores whatever input bits its record still holds:
/// two records that differ only there give the same step, and once physics runs the
/// command is the neutral one (no movement, no action, facing kept).
pub proof fn lemma_disconnected_is_neutral(
    rx: Seq<Seq<FrameHash>>,
    local: Seq<FrameHash>,
    local_handles: Seq<usize>,
    physics_enabled: bool,
    pool: Seq<SpawnSlot>,
    player: Player,
    a: GGRSInput,
    b: GGRSInput,
)
    requires
        a.last_confirmed_frame == b.last_confirmed_frame,
        a.last_confirmed_hash == b.last_confirmed_hash,
    ensures
        player_outcome(rx, local, local_handles, physics_enabled, pool, player, a, InputStatus::Disconnected)
            == player_outcome(rx, local, local_handles, physics_enabled, pool, player, b, InputStatus::Disconnected),
        physics_enabled && player_outcome(
            rx,
            local,
            local_handles,
            physics_enabled,
            pool,
            player,
            a,
            InputStatus::Disconnected,
        ) is Ok ==> player_outcome(
            rx,
            local,
            local_handles,
            physics_enabled,
            pool,
            player,
            a,
            InputStatus::Disconnected,
        ).unwrap().2 == Some(
            PlayerCommand { handle: player.handle, movement: (0, 0), facing: None, bullet: None },
        ),
{
}

/// Two instances that apply the same record and status for a player, from the same
/// ledgers, local handles and physics switch, and from pools that hold the same
/// slots in any order (no index twice), take the same step: the same error, or the
/// same ledgers, the same command (same bullet slot included), and pools that again
/// hold the same slots.
pub proof fn lemma_player_outcome_deterministic(
    rx: Seq<Seq<FrameHash>>,
    local: Seq<FrameHash>,
    local_handles: Seq<usize>,
    physics_enabled: bool,
    a: Seq<SpawnSlot>,
    b: Seq<SpawnSlot>,
    player: Player,
    record: GGRSInput,
    status: InputStatus,
)
    requires
        a.to_multiset() == b.to_multiset(),
        distinct_indices(a),
    ensures
        match (
            player_outcome(rx, local, local_handles, physics_enabled, a, player, record, status),
            player_outcome(rx, local, local_handles, physics_enabled, b, player, record, status),
        ) {
            (Ok(x), Ok(y)) => x.0 == y.0 && x.2 == y.2 && x.1.to_multiset() == y.1.to_multiset()
                && distinct_indices(x.1),
            (Err(e1), Err(e2)) => e1 == e2,
            _ => false,
        },
{
    broadcast use vstd::seq_lib::to_multiset_len;

    assert(a.len() == a.to_multiset().len());
    assert(b.len() == b.to_multiset().len());
    if a.len() > 0 {
        lemma_min_pos(a);
        lemma_min_pos(b);
        lemma_claim_order_independent(a, b, min_pos(a), min_pos(b));
    }
}

/// Two instances fed the same players and inputs for a frame, from the same ledgers,
/// local handles and physics switch, and from pools that hold the same slots in any
/// order (no index twice), end the frame alike: the same error, or the same
/// receive-side ledgers, the same commands, and pools that hold the same slots.
pub proof fn lemma_inputs_outcome_deterministic(
    rx: Seq<Seq<FrameHash>>,
    local: Seq<FrameHash>,
    local_handles: Seq<usize>,
    physics_enabled: bool,
    a: Seq<SpawnSlot>,
    b: Seq<SpawnSlot>,
    players: Seq<Player>,
    inputs: Seq<(GGRSInput, InputStatus)>,
)
    requires
        a.to_multiset() == b.to_multiset(),
        distinct_indices(a),
    ensures
        match (
            inputs_outcome(rx, local, local_handles, physics_enabled, a, players, inputs),
            inputs_outcome(rx, local, local_handles, physics_enabled, b, players, inputs),
        ) {
            (Ok(x), Ok(y)) => x.0 == y.0 && x.2 == y.2 && x.1.to_multiset() == y.1.to_multiset()
                && distinct_indices(x.1),
            (Err(e1), Err(e2)) => e1 == e2,
            _ => false,
        },
    decreases players.len(),
{
    if players.len() > 0 {
        let prefix = players.drop_last();
        lemma_inputs_outcome_deterministic(
            rx,
            local,
            local_handles,
            physics_enabled,
            a,
            b,
            prefix,
            inputs,
        );
        let oa = inputs_outcome(rx, local, local_handles, physics_enabled, a, prefix, inputs);
        let ob = inputs_outcome(rx, local, local_handles, physics_enabled, b, prefix, inputs);
        if oa is Ok {
            let x = oa.unwrap();
            let y = ob.unwrap();
            let p = players.last();
            let (record, status) = inputs[p.handle as int];
            lemma_player_outcome_deterministic(
                x.0,
                local,
                local_handles,
                physics_enabled,
                x.1,
                y.1,
                p,
                record,
                status,
            );
        }
    }
}

} // verus!
