use rollback_netcode::dungeon::{Dungeon, Tile, TileKind};
use rollback_netcode::error::RollbackError;
use rollback_netcode::spawn::{SpawnPool, SpawnSlot};
use rollback_netcode::startup::{respawn_all, MAX_HP, NUM_PLAYERS};

fn t(c: char) -> Tile {
    Tile {
        kind: match c {
            '#' => TileKind::Wall,
            '.' => TileKind::Floor,
            _ => TileKind::Empty,
        },
    }
}

fn grid(rows: &[&str]) -> Vec<Vec<Tile>> {
    rows.iter().map(|r| r.chars().map(t).collect()).collect()
}

#[test]
fn pool_claims_lowest_index_first() {
    let mut pool = SpawnPool::from_unclaimed(vec![
        SpawnSlot { index: 7, entity: 70 },
        SpawnSlot { index: 3, entity: 30 },
        SpawnSlot { index: 5, entity: 50 },
    ]);
    assert_eq!(pool.claim(), Ok(SpawnSlot { index: 3, entity: 30 }));
    assert_eq!(pool.claim(), Ok(SpawnSlot { index: 5, entity: 50 }));
    assert_eq!(pool.claim(), Ok(SpawnSlot { index: 7, entity: 70 }));
    assert_eq!(pool.claim(), Err(RollbackError::SpawnPoolExhausted));
}

#[test]
fn same_script_gives_same_mapping_on_two_pools() {
    let slots: Vec<SpawnSlot> = (0..10).map(|i| SpawnSlot { index: i, entity: 1000 + i as u64 }).collect();
    let mut reversed = slots.clone();
    reversed.reverse();
    let mut a = SpawnPool::from_unclaimed(slots);
    let mut b = SpawnPool::from_unclaimed(reversed);
    let script = [1usize, 0, 3, 2, 0, 1];
    let mut logical = 0;
    for spawns in script {
        for _ in 0..spawns {
            let sa = a.claim().unwrap();
            let sb = b.claim().unwrap();
            assert_eq!(sa, sb);
            assert_eq!(sa.index, logical);
            logical += 1;
        }
    }
}

#[test]
fn fresh_pool_tags_in_order() {
    let mut pool = SpawnPool::new(vec![40, 41, 42]);
    assert_eq!(pool.len(), 3);
    assert_eq!(pool.claim(), Ok(SpawnSlot { index: 0, entity: 40 }));
    assert_eq!(pool.claim(), Ok(SpawnSlot { index: 1, entity: 41 }));
}

#[test]
fn dungeon_keeps_first_rows_and_first_floors() {
    let d = Dungeon::from_tiles(grid(&["#..#", "#...", " ## ", "....", "#..#", "...."]));
    assert_eq!(d.tiles.len(), 5);
    assert_eq!(d.spawn_points, vec![(1, 0), (2, 0), (1, 1), (2, 1)]);
    assert_eq!(d.spawn_index, 0);
    assert_eq!(d.get_tiles(), d.tiles);
}

#[test]
fn dungeon_spawn_points_go_round() {
    let mut d = Dungeon::from_tiles(grid(&["#.#", "#.#"]));
    assert_eq!(d.spawn_points, vec![(1, 0), (1, 1)]);
    assert_eq!(d.get_spawn_point(), (1, 0));
    assert_eq!(d.get_spawn_point(), (1, 1));
    assert_eq!(d.get_spawn_point(), (1, 0));
}

#[test]
fn tile_kinds_map_to_sprites() {
    assert_eq!(TileKind::Empty.sprite_index(), 0);
    assert_eq!(TileKind::Floor.sprite_index(), 1);
    assert_eq!(TileKind::Wall.sprite_index(), 2);
    assert!(TileKind::Wall.is_solid());
    assert!(!TileKind::Floor.is_solid());
}

#[test]
fn respawn_places_cells_then_players() {
    let mut d = Dungeon::from_tiles(grid(&["#.", ".#"]));
    let mut pool = SpawnPool::new((0..8).map(|i| 500 + i).collect());
    let plan = respawn_all(&mut pool, &mut d).unwrap();
    assert_eq!(plan.tiles.len(), 4);
    let expected = [(0, 0, TileKind::Wall), (1, 0, TileKind::Floor), (0, 1, TileKind::Floor), (1, 1, TileKind::Wall)];
    for (k, p) in plan.tiles.iter().enumerate() {
        assert_eq!(p.slot.index, k);
        assert_eq!((p.x, p.y, p.kind), expected[k]);
    }
    assert_eq!(plan.dudes.len(), NUM_PLAYERS);
    assert_eq!(plan.dudes[0].handle, 0);
    assert_eq!(plan.dudes[0].slot.index, 4);
    assert_eq!(plan.dudes[0].tile, (1, 0));
    assert_eq!(plan.dudes[0].max_hp, MAX_HP);
    assert_eq!(plan.dudes[1].handle, 1);
    assert_eq!(plan.dudes[1].slot.entity, 505);
    assert_eq!(plan.dudes[1].tile, (0, 1));
    assert_eq!(pool.len(), 2);
    assert_eq!(d.spawn_index, 0);
}

#[test]
fn respawn_needs_spawn_point() {
    let mut d = Dungeon::from_tiles(grid(&["##", "##"]));
    let mut pool = SpawnPool::new(vec![1, 2, 3, 4, 5, 6]);
    assert!(matches!(respawn_all(&mut pool, &mut d), Err(RollbackError::NoSpawnPoint)));
    assert_eq!(pool.len(), 6);
}

#[test]
fn respawn_needs_enough_slots() {
    let mut d = Dungeon::from_tiles(grid(&["#.", ".#"]));
    let mut pool = SpawnPool::new(vec![1, 2, 3, 4, 5]);
    assert!(matches!(respawn_all(&mut pool, &mut d), Err(RollbackError::SpawnPoolExhausted)));
}
