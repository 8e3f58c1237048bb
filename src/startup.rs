use vstd::prelude::*;
use crate::dungeon::{grid_of, Dungeon, Tile, TileKind};
use crate::error::RollbackError;
use crate::frame_hash::{
    Frame, FrameHash, FrameHashes, ValidatableFrame, DESYNC_MAX_FRAMES,
};
use crate::rollback::{LocalHandles, MatchState};
use crate::spawn::{lemma_take_claims_len, take_claims, SpawnPool, SpawnSlot};

verus! {

/// Players in a match.
pub const NUM_PLAYERS: usize = 2;
/// Hit points a player starts with.
pub const MAX_HP: usize = 100;
/// Frames that the session may still correct: the rollback window.
pub const MAX_PREDICTION_WINDOW: Frame = 8;

/// The state a match starts from: empty ledgers of `DESYNC_MAX_FRAMES` slots (the
/// local one, and a receive-side one for each player handle), the reporting window
/// at frame zero with the default rollback window, no local player, and physics
/// off.
pub fn startup() -> (r: MatchState)
    ensures
        r.wf(),
        r.hashes@ == Seq::new(DESYNC_MAX_FRAMES as nat, |i: int| FrameHash::empty_spec()),
        r.rx_view() == Seq::new(
            NUM_PLAYERS as nat,
            |p: int| Seq::new(DESYNC_MAX_FRAMES as nat, |i: int| FrameHash::empty_spec()),
        ),
        r.validatable_frame == (ValidatableFrame { current_frame: 0, window: MAX_PREDICTION_WINDOW }),
        r.local_handles.handles@ == Seq::<usize>::empty(),
        !r.physics_enabled,
{
    let ghost empty = Seq::new(DESYNC_MAX_FRAMES as nat, |i: int| FrameHash::empty_spec());
    let mut rx_hashes: Vec<FrameHashes> = Vec::new();
    let mut p: usize = 0;
    while p < NUM_PLAYERS
        invariant
            p <= NUM_PLAYERS,
            empty == Seq::new(DESYNC_MAX_FRAMES as nat, |i: int| FrameHash::empty_spec()),
            rx_hashes@.len() == p,
            forall|j: int| 0 <= j < p ==> (#[trigger] rx_hashes@[j]).wf() && rx_hashes@[j]@ == empty,
        decreases NUM_PLAYERS - p,
    {
        rx_hashes.push(FrameHashes::new(DESYNC_MAX_FRAMES));
        proof {
            assert(rx_hashes@[p as int]@ =~= empty);
        }
        p = p + 1;
    }
    let r = MatchState {
        hashes: FrameHashes::new(DESYNC_MAX_FRAMES),
        rx_hashes,
        validatable_frame: ValidatableFrame { current_frame: 0, window: MAX_PREDICTION_WINDOW },
        local_handles: LocalHandles::new(),
        physics_enabled: false,
    };
    proof {
        assert(r.rx_view() =~= Seq::new(NUM_PLAYERS as nat, |p: int| empty));
    }
    r
}

/// A dungeon cell placed on a claimed spawn slot; `x` and `y` count tiles.
#[derive(Clone, Copy, Debug, PartialEq, Eq, Structural)]
pub struct TilePlacement {
    pub slot: SpawnSlot,
    pub x: usize,
    pub y: usize,
    pub kind: TileKind,
}

/// A player's entity placed on a claimed spawn slot, at the spawn point `tile`.
#[derive(Clone, Copy, Debug, PartialEq, Eq)]
pub struct DudePlacement {
    pub handle: usize,
    pub slot: SpawnSlot,
    pub tile: (usize, usize),
    pub max_hp: usize,
}

/// Where everything goes when the world is laid out: each cell, then each player.
#[derive(Debug)]
pub struct RespawnPlan {
    pub tiles: Vec<TilePlacement>,
    pub dudes: Vec<DudePlacement>,
}

/// The cells of row `y` of a grid as `(x, y, kind)`, left to right.
pub open spec fn row_cells(row: Seq<Tile>, y: int) -> Seq<(usize, usize, TileKind)> {
    Seq::new(row.len(), |x: int| (x as usize, y as usize, row[x].kind))
}

/// The cells of a grid in row-major order.
pub open spec fn grid_cells(g: Seq<Seq<Tile>>) -> Seq<(usize, usize, TileKind)>
    decreases g.len(),
{
    if g.len() == 0 {
        Seq::empty()
    } else {
        grid_cells(g.drop_last()) + row_cells(g.last(), g.len() - 1)
    }
}

proof fn lemma_grid_cells_grow(g: Seq<Seq<Tile>>, y: int)
    requires
        0 <= y <= g.len(),
    ensures
        grid_cells(g.take(y)).len() <= grid_cells(g).len(),
    decreases g.len() - y,
{
    if y < g.len() {
        lemma_grid_cells_grow(g, y + 1);
        assert(g.take(y + 1).drop_last() =~= g.take(y));
    } else {
        assert(g.take(y) =~= g);
    }
}

/// The spawn point handed out after `idx` in a list of `len` points.
pub open spec fn next_spawn_index(idx: usize, len: nat) -> usize {
    if idx + 1 == len {
        0
    } else {
        (idx + 1) as usize
    }
}

/// The spawn point handed out `n` turns after `idx`.
pub open spec fn spawn_index_after(idx: usize, len: nat, n: nat) -> usize
    decreases n,
{
    if n == 0 {
        idx
    } else {
        next_spawn_index(spawn_index_after(idx, len, (n - 1) as nat), len)
    }
}

/// Lays the world out from the spawn pool: every cell of the dungeon, in row-major
/// order, takes the next claimed slot; then each player, in handle order, takes the
/// next slot and the dungeon's next spawn point. A dungeon without spawn points, or
/// a pool too small for all of this, ends the match.
pub fn respawn_all(pool: &mut SpawnPool, dungeon: &mut Dungeon) -> (r: Result<RespawnPlan, RollbackError>)
    requires
        old(dungeon).wf(),
    ensures
        final(dungeon).wf(),
        final(dungeon).tiles@ == old(dungeon).tiles@,
        final(dungeon).spawn_points@ == old(dungeon).spawn_points@,
        old(dungeon).spawn_points@.len() == 0 ==> r == Err::<RespawnPlan, RollbackError>(
            RollbackError::NoSpawnPoint,
        ) && final(pool)@ == old(pool)@ && final(dungeon).spawn_index == old(dungeon).spawn_index,
        ({
            let cells = grid_cells(grid_of(old(dungeon).tiles@));
            let need = cells.len() + NUM_PLAYERS;
            let (claimed, rest) = take_claims(old(pool)@, need as nat);
            let sp = old(dungeon).spawn_points@;
            old(dungeon).spawn_points@.len() > 0 ==> if old(pool)@.len() < need {
                r == Err::<RespawnPlan, RollbackError>(RollbackError::SpawnPoolExhausted)
            } else {
                &&& r is Ok
                &&& final(pool)@ == rest
                &&& final(dungeon).spawn_index == spawn_index_after(
                    old(dungeon).spawn_index,
                    sp.len(),
                    NUM_PLAYERS as nat,
                )
                &&& r.unwrap().tiles@.len() == cells.len()
                &&& forall|k: int|
                    0 <= k < cells.len() ==> #[trigger] r.unwrap().tiles@[k] == (TilePlacement {
                        slot: claimed[k],
                        x: cells[k].0,
                        y: cells[k].1,
                        kind: cells[k].2,
                    })
                &&& r.unwrap().dudes@.len() == NUM_PLAYERS
                &&& forall|i: int|
                    0 <= i < NUM_PLAYERS ==> #[trigger] r.unwrap().dudes@[i] == (DudePlacement {
                        handle: i as usize,
                        slot: claimed[cells.len() + i],
                        tile: sp[spawn_index_after(old(dungeon).spawn_index, sp.len(), i as nat) as int],
                        max_hp: MAX_HP,
                    })
            }
        }),
{
    if dungeon.spawn_points.len() == 0 {
        return Err(RollbackError::NoSpawnPoint);
    }
    let total = pool.len();
    let ghost pool0 = pool@;
    let ghost g = grid_of(dungeon.tiles@);
    let ghost cells = grid_cells(g);
    let mut tiles: Vec<TilePlacement> = Vec::new();
    let mut count: usize = 0;
    let mut y: usize = 0;
    while y < dungeon.tiles.len()
        invariant
            dungeon.tiles@ == old(dungeon).tiles@,
            dungeon.spawn_points@ == old(dungeon).spawn_points@,
            dungeon.spawn_index == old(dungeon).spawn_index,
            dungeon.spawn_points@.len() > 0,
            dungeon.wf(),
            g == grid_of(dungeon.tiles@),
            cells == grid_cells(g),
            y <= dungeon.tiles@.len(),
            count == tiles@.len(),
            count <= pool0.len(),
            pool0.len() == total,
            pool0 == old(pool)@,
            grid_cells(g.take(y as int)).len() == count,
            pool@ == take_claims(pool0, count as nat).1,
            forall|k: int|
                0 <= k < count ==> #[trigger] tiles@[k] == (TilePlacement {
                    slot: take_claims(pool0, count as nat).0[k],
                    x: grid_cells(g.take(y as int))[k].0,
                    y: grid_cells(g.take(y as int))[k].1,
                    kind: grid_cells(g.take(y as int))[k].2,
                }),
        decreases dungeon.tiles@.len() - y,
    {
        let row = &dungeon.tiles[y];
        let ghost done = grid_cells(g.take(y as int));
        let mut x: usize = 0;
        while x < row.len()
            invariant
                dungeon.tiles@ == old(dungeon).tiles@,
                dungeon.spawn_points@ == old(dungeon).spawn_points@,
                dungeon.spawn_index == old(dungeon).spawn_index,
                dungeon.spawn_points@.len() > 0,
                dungeon.wf(),
                g == grid_of(dungeon.tiles@),
                cells == grid_cells(g),
                y < dungeon.tiles@.len(),
                row@ == g[y as int],
                done == grid_cells(g.take(y as int)),
                x <= row@.len(),
                count == tiles@.len(),
                count == done.len() + x,
                count <= pool0.len(),
                pool0.len() == total,
                pool0 == old(pool)@,
            pool0 == old(pool)@,
            pool0.len() == total,
            pool0 == old(pool)@,
                pool@ == take_claims(pool0, count as nat).1,
                forall|k: int|
                    0 <= k < count ==> #[trigger] tiles@[k] == (TilePlacement {
                        slot: take_claims(pool0, count as nat).0[k],
                        x: (done + row_cells(row@, y as int))[k].0,
                        y: (done + row_cells(row@, y as int))[k].1,
                        kind: (done + row_cells(row@, y as int))[k].2,
                    }),
            decreases row@.len() - x,
        {
            proof {
                lemma_take_claims_len(pool0, count as nat);
            }
            let claimed = pool.claim();
            match claimed {
                Err(e) => {
                    proof {
                        assert(g.take(y + 1).drop_last() =~= g.take(y as int));
                        assert(g.take(y + 1).last() == row@);
                        lemma_grid_cells_grow(g, y + 1);
                    }
                    return Err(e);
                },
                Ok(slot) => {
                    let ghost prev = take_claims(pool0, count as nat).0;
                    tiles.push(TilePlacement { slot, x, y, kind: row[x].kind });
                    count = count + 1;
                    proof {
                        assert(take_claims(pool0, count as nat).0 == prev.push(slot));
                        assert forall|k: int| 0 <= k < count implies #[trigger] tiles@[k] == (TilePlacement {
                            slot: take_claims(pool0, count as nat).0[k],
                            x: (done + row_cells(row@, y as int))[k].0,
                            y: (done + row_cells(row@, y as int))[k].1,
                            kind: (done + row_cells(row@, y as int))[k].2,
                        }) by {
                            if k < count - 1 {
                                assert(take_claims(pool0, count as nat).0[k] == prev[k]);
                            }
                        }
                    }
                },
            }
            x = x + 1;
        }
        proof {
            assert(g.take(y + 1).drop_last() =~= g.take(y as int));
            assert(g.take(y + 1).last() == row@);
            assert(grid_cells(g.take(y + 1)) == done + row_cells(row@, y as int));
        }
        y = y + 1;
    }
    proof {
        assert(g.take(y as int) =~= g);
    }
    let ghost sp = dungeon.spawn_points@;
    let ghost idx0 = dungeon.spawn_index;
    let mut dudes: Vec<DudePlacement> = Vec::new();
    let mut i: usize = 0;
    while i < NUM_PLAYERS
        invariant
            dungeon.wf(),
            dungeon.tiles@ == old(dungeon).tiles@,
            dungeon.spawn_points@ == sp,
            sp == old(dungeon).spawn_points@,
            sp.len() > 0,
            idx0 == old(dungeon).spawn_index,
            dungeon.spawn_index == spawn_index_after(idx0, sp.len(), i as nat),
            i <= NUM_PLAYERS,
            cells == grid_cells(grid_of(old(dungeon).tiles@)),
            count == cells.len() + i,
            count <= pool0.len(),
            pool0.len() == total,
            pool0 == old(pool)@,
            tiles@.len() == cells.len(),
            dudes@.len() == i,
            pool@ == take_claims(pool0, count as nat).1,
            forall|k: int|
                0 <= k < cells.len() ==> #[trigger] tiles@[k] == (TilePlacement {
                    slot: take_claims(pool0, count as nat).0[k],
                    x: cells[k].0,
                    y: cells[k].1,
                    kind: cells[k].2,
                }),
            forall|j: int|
                0 <= j < i ==> #[trigger] dudes@[j] == (DudePlacement {
                    handle: j as usize,
                    slot: take_claims(pool0, count as nat).0[cells.len() + j],
                    tile: sp[spawn_index_after(idx0, sp.len(), j as nat) as int],
                    max_hp: MAX_HP,
                }),
        decreases NUM_PLAYERS - i,
    {
        proof {
            lemma_take_claims_len(pool0, count as nat);
        }
        let point = dungeon.get_spawn_point();
        let claimed = pool.claim();
        match claimed {
            Err(e) => {
                return Err(e);
            },
            Ok(slot) => {
                let ghost prev = take_claims(pool0, count as nat).0;
                dudes.push(DudePlacement { handle: i, slot, tile: point, max_hp: MAX_HP });
                count = count + 1;
                i = i + 1;
                proof {
                    assert(take_claims(pool0, count as nat).0 == prev.push(slot));
                    assert forall|k: int| 0 <= k < cells.len() implies #[trigger] tiles@[k] == (TilePlacement {
                        slot: take_claims(pool0, count as nat).0[k],
                        x: cells[k].0,
                        y: cells[k].1,
                        kind: cells[k].2,
                    }) by {
                        assert(take_claims(pool0, count as nat).0[k] == prev[k]);
                    }
                    assert forall|j: int| 0 <= j < i implies #[trigger] dudes@[j] == (DudePlacement {
                        handle: j as usize,
                        slot: take_claims(pool0, count as nat).0[cells.len() + j],
                        tile: sp[spawn_index_after(idx0, sp.len(), j as nat) as int],
                        max_hp: MAX_HP,
                    }) by {
                        assert(take_claims(pool0, count as nat).0[cells.len() + j] == prev.push(
                            slot,
                        )[cells.len() + j]);
                    }
                }
            },
        }
    }
    Ok(RespawnPlan { tiles, dudes })
}

} // verus!
