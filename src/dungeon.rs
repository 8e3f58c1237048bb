use vstd::prelude::*;

verus! {

/// What a dungeon cell is.
#[derive(Clone, Copy, Debug, PartialEq, Eq, Structural)]
pub enum TileKind {
    Empty,
    Wall,
    Floor,
}

/// One cell of the dungeon grid.
#[derive(Clone, Copy, Debug, PartialEq, Eq, Structural)]
pub struct Tile {
    pub kind: TileKind,
}

impl TileKind {
    /// Position of this kind's picture in the tile sheet.
    pub open spec fn sprite_index_spec(self) -> usize {
        match self {
            TileKind::Empty => 0,
            TileKind::Floor => 1,
            TileKind::Wall => 2,
        }
    }

    pub fn sprite_index(&self) -> (r: usize)
        ensures
            r == self.sprite_index_spec(),
    {
        match self {
            TileKind::Empty => 0,
            TileKind::Floor => 1,
            TileKind::Wall => 2,
        }
    }

    /// Walls are the only cells with a collider.
    pub fn is_solid(&self) -> (r: bool)
        ensures
            r == (*self == TileKind::Wall),
    {
        match self {
            TileKind::Wall => true,
            _ => false,
        }
    }
}

/// Rows of the generated grid that the match keeps.
pub const MAX_ROWS: usize = 5;
/// Most spawn points a dungeon offers.
pub const MAX_SPAWN_POINTS: usize = 4;

/// The grid of a list of rows.
pub open spec fn grid_of(rows: Seq<Vec<Tile>>) -> Seq<Seq<Tile>> {
    rows.map_values(|r: Vec<Tile>| r@)
}

/// The floor cells of `row`, which is row `y` of a grid, as `(x, y)`, left to right.
pub open spec fn row_floors(row: Seq<Tile>, y: int) -> Seq<(usize, usize)>
    decreases row.len(),
{
    if row.len() == 0 {
        Seq::empty()
    } else {
        let rest = row_floors(row.drop_last(), y);
        if row.last().kind == TileKind::Floor {
            rest.push(((row.len() - 1) as usize, y as usize))
        } else {
            rest
        }
    }
}

/// The floor cells of a grid in row-major order.
pub open spec fn grid_floors(g: Seq<Seq<Tile>>) -> Seq<(usize, usize)>
    decreases g.len(),
{
    if g.len() == 0 {
        Seq::empty()
    } else {
        grid_floors(g.drop_last()) + row_floors(g.last(), g.len() - 1)
    }
}

/// At most the first `MAX_SPAWN_POINTS` items of `s`.
pub open spec fn first_spawn_points(s: Seq<(usize, usize)>) -> Seq<(usize, usize)> {
    if s.len() <= MAX_SPAWN_POINTS {
        s
    } else {
        s.take(MAX_SPAWN_POINTS as int)
    }
}

/// A dungeon laid out as rows of tiles, with the points where players spawn, handed
/// out in turn.
#[derive(Debug)]
pub struct Dungeon {
    pub tiles: Vec<Vec<Tile>>,
    pub spawn_points: Vec<(usize, usize)>,
    pub spawn_index: usize,
}

impl Dungeon {
    /// The spawn point handed out next is a valid one, if there is any.
    pub open spec fn wf(&self) -> bool {
        self.spawn_index < self.spawn_points@.len() || (self.spawn_index == 0
            && self.spawn_points@.len() == 0)
    }

    /// The dungeon of a generated grid: its first `MAX_ROWS` rows, with the first
    /// `MAX_SPAWN_POINTS` floor cells of those rows, in row-major order, as spawn points.
    pub fn from_tiles(tiles: Vec<Vec<Tile>>) -> (r: Dungeon)
        ensures
            r.wf(),
            grid_of(r.tiles@) == grid_of(tiles@).take(
                if tiles@.len() < MAX_ROWS {
                    tiles@.len() as int
                } else {
                    MAX_ROWS as int
                },
            ),
            r.spawn_points@ == first_spawn_points(grid_floors(grid_of(r.tiles@))),
            r.spawn_index == 0,
    {
        let mut tiles = tiles;
        tiles.truncate(MAX_ROWS);
        let ghost g = grid_of(tiles@);
        let mut spawn_points: Vec<(usize, usize)> = Vec::new();
        let mut y: usize = 0;
        while y < tiles.len()
            invariant
                y <= tiles@.len(),
                g == grid_of(tiles@),
                spawn_points@ == first_spawn_points(grid_floors(g.take(y as int))),
            decreases tiles@.len() - y,
        {
            let row = &tiles[y];
            let mut x: usize = 0;
            while x < row.len()
                invariant
                    y < tiles@.len(),
                    row@ == g[y as int],
                    x <= row@.len(),
                    spawn_points@ == first_spawn_points(
                        grid_floors(g.take(y as int)) + row_floors(row@.take(x as int), y as int),
                    ),
                decreases row@.len() - x,
            {
                let ghost before = grid_floors(g.take(y as int)) + row_floors(
                    row@.take(x as int),
                    y as int,
                );
                proof {
                    assert(row@.take(x + 1).drop_last() =~= row@.take(x as int));
                }
                if row[x].kind == TileKind::Floor {
                    proof {
                        assert(grid_floors(g.take(y as int)) + row_floors(row@.take(x + 1), y as int)
                            =~= before.push((x, y)));
                    }
                    if spawn_points.len() < MAX_SPAWN_POINTS {
                        spawn_points.push((x, y));
                    } else {
                        proof {
                            assert(before.push((x, y)).take(MAX_SPAWN_POINTS as int) =~= before.take(
                                MAX_SPAWN_POINTS as int,
                            ));
                        }
                    }
                }
                x = x + 1;
            }
            proof {
                assert(row@.take(row@.len() as int) =~= row@);
                assert(g.take(y + 1).drop_last() =~= g.take(y as int));
            }
            y = y + 1;
        }
        proof {
            assert(g.take(y as int) =~= g);
        }
        Dungeon { tiles, spawn_points, spawn_index: 0 }
    }

    /// Hands out the next spawn point, going round the list.
    pub fn get_spawn_point(&mut self) -> (r: (usize, usize))
        requires
            old(self).wf(),
            old(self).spawn_points@.len() > 0,
        ensures
            final(self).wf(),
            r == old(self).spawn_points@[old(self).spawn_index as int],
            final(self).spawn_index == if old(self).spawn_index + 1 == old(self).spawn_points@.len() {
                0
            } else {
                old(self).spawn_index + 1
            },
            final(self).spawn_points@ == old(self).spawn_points@,
            final(self).tiles@ == old(self).tiles@,
    {
        let point = self.spawn_points[self.spawn_index];
        let n = self.spawn_points.len();
        let next = self.spawn_index + 1;
        self.spawn_index = if next == n {
            0
        } else {
            next
        };
        point
    }

    /// A copy of the grid.
    pub fn get_tiles(&self) -> (r: Vec<Vec<Tile>>)
        ensures
            grid_of(r@) == grid_of(self.tiles@),
    {
        let mut out: Vec<Vec<Tile>> = Vec::new();
        let mut y: usize = 0;
        while y < self.tiles.len()
            invariant
                y <= self.tiles@.len(),
                out@.len() == y,
                grid_of(out@) == grid_of(self.tiles@).take(y as int),
            decreases self.tiles@.len() - y,
        {
            let row = &self.tiles[y];
            let mut copy: Vec<Tile> = Vec::new();
            let mut x: usize = 0;
            while x < row.len()
                invariant
                    x <= row@.len(),
                    copy@ == row@.take(x as int),
                decreases row@.len() - x,
            {
                copy.push(row[x]);
                x = x + 1;
                proof {
                    assert(copy@ =~= row@.take(x as int));
                }
            }
            proof {
                assert(copy@ =~= row@);
            }
            let ghost prev = out@;
            out.push(copy);
            proof {
                assert forall|i: int| 0 <= i <= y implies #[trigger] grid_of(out@)[i] == grid_of(
                    self.tiles@,
                )[i] by {
                    if i < y {
                        assert(out@[i] == prev[i]);
                        assert(grid_of(prev)[i] == grid_of(self.tiles@).take(y as int)[i]);
                    }
                }
                assert(grid_of(out@) =~= grid_of(self.tiles@).take(y + 1));
            }
            y = y + 1;
        }
        proof {
            assert(grid_of(self.tiles@).take(y as int) =~= grid_of(self.tiles@));
        }
        out
    }
}

} // verus!
