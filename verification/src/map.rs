//! The dungeon map: a grid of wall and floor tiles, the rooms that were dug
//! into it, and the per-tile indices that the systems keep up to date.

use crate::grid::{coords_of, index_of, lemma_index_in_range, lemma_index_injective, within};
use crate::rect::Rect;
use crate::components::Coord;
use crate::store::Entity;
use vstd::prelude::*;

verus! {

/// The largest number of tiles a map can have. Tile coordinates, tile places
/// and a sight range added to either all stay within 32-bit signed arithmetic.
pub const MAX_TILES: usize = 0x4000_0000;

/// What a tile is made of.
#[derive(Clone, Copy, Debug, PartialEq, Eq, Structural)]
pub enum TileType {
    Wall,
    Floor,
}

/// A map of `width` by `height` tiles. The five per-tile arrays are row-major:
/// tile `(x, y)` stands at place `y * width + x`.
pub struct TileMap {
    pub tiles: Vec<TileType>,
    /// The rooms, in the order in which they were dug.
    pub rooms: Vec<Rect>,
    pub width: i32,
    pub height: i32,
    /// Tiles the player has seen at some time.
    pub revealed_tiles: Vec<bool>,
    /// Tiles the player sees now.
    pub visible_tiles: Vec<bool>,
    /// Tiles that cannot be entered: walls and tiles held by a blocking entity.
    pub blocked: Vec<bool>,
    /// For each tile, the entities that stand on it.
    pub tile_content: Vec<Vec<Entity>>,
}

impl TileMap {
    /// Whether `(x, y)` is a tile of this map.
    pub open spec fn has_tile(self, x: int, y: int) -> bool {
        within(self.width as int, self.height as int, x, y)
    }

    /// The place of tile `(x, y)` in the per-tile arrays.
    pub open spec fn place(self, x: int, y: int) -> int {
        index_of(self.width as int, x, y)
    }

    /// What tile `(x, y)` is made of.
    pub open spec fn tile_at(self, x: int, y: int) -> TileType {
        self.tiles@[self.place(x, y)]
    }

    /// Whether `(x, y)` is a floor tile of this map.
    pub open spec fn is_floor(self, x: int, y: int) -> bool {
        self.has_tile(x, y) && self.tile_at(x, y) == TileType::Floor
    }

    /// The map has at least one tile and no more than `MAX_TILES`, and each
    /// per-tile array has one entry for each tile.
    pub open spec fn sized(self) -> bool {
        &&& 1 <= self.width
        &&& 1 <= self.height
        &&& self.width * self.height <= MAX_TILES
        &&& self.tiles@.len() == self.width * self.height
        &&& self.revealed_tiles@.len() == self.width * self.height
        &&& self.visible_tiles@.len() == self.width * self.height
        &&& self.blocked@.len() == self.width * self.height
        &&& self.tile_content@.len() == self.width * self.height
    }

    /// Every tile that is visible now has been revealed.
    pub open spec fn visible_within_revealed(self) -> bool {
        forall|i: int|
            0 <= i < self.visible_tiles@.len() && self.visible_tiles@[i] ==> self.revealed_tiles@[i]
    }

    /// The map is well sized and what is visible has been revealed.
    pub open spec fn wf(self) -> bool {
        self.sized() && self.visible_within_revealed()
    }

    /// Whether the player sees tile `(x, y)` now.
    pub open spec fn is_visible(self, x: int, y: int) -> bool {
        self.visible_tiles@[self.place(x, y)]
    }

    /// Whether the player has seen tile `(x, y)` at some time.
    pub open spec fn is_revealed(self, x: int, y: int) -> bool {
        self.revealed_tiles@[self.place(x, y)]
    }

    /// Whether tile `(x, y)` cannot be entered.
    pub open spec fn is_blocked(self, x: int, y: int) -> bool {
        self.blocked@[self.place(x, y)]
    }

    /// The entities that stand on tile `(x, y)`.
    pub open spec fn occupants(self, x: int, y: int) -> Seq<Entity> {
        self.tile_content@[self.place(x, y)]@
    }

    /// Whether this map has the size, tiles, rooms and entity indices of
    /// `other`; what is visible and revealed may differ.
    pub open spec fn same_ground(self, other: TileMap) -> bool {
        &&& self.width == other.width
        &&& self.height == other.height
        &&& self.tiles == other.tiles
        &&& self.rooms == other.rooms
        &&& self.blocked == other.blocked
        &&& self.tile_content == other.tile_content
    }

    /// Whether this map is `before` after the player's view became `seen`:
    /// exactly the tiles of `seen` are visible, and they have been added to
    /// what was revealed.
    pub open spec fn shows(self, before: TileMap, seen: Set<(int, int)>) -> bool {
        &&& self.visible_tiles@.len() == before.visible_tiles@.len()
        &&& self.revealed_tiles@.len() == before.revealed_tiles@.len()
        &&& forall|x: int, y: int|
            before.has_tile(x, y) ==> #[trigger] self.is_visible(x, y) == seen.contains((x, y))
        &&& forall|x: int, y: int|
            before.has_tile(x, y) ==> #[trigger] self.is_revealed(x, y) == (before.is_revealed(x, y)
                || seen.contains((x, y)))
    }

    /// Whether this map differs from `other` in its tiles at most.
    pub open spec fn same_but_tiles(self, other: TileMap) -> bool {
        &&& self.width == other.width
        &&& self.height == other.height
        &&& self.tiles@.len() == other.tiles@.len()
        &&& self.rooms == other.rooms
        &&& self.revealed_tiles == other.revealed_tiles
        &&& self.visible_tiles == other.visible_tiles
        &&& self.blocked == other.blocked
        &&& self.tile_content == other.tile_content
    }

    /// Whether `(px, py)` lies on the straight horizontal run between
    /// `(x1, y)` and `(x2, y)`.
    pub open spec fn on_row_run(x1: int, x2: int, y: int, px: int, py: int) -> bool {
        py == y && (x1 <= px <= x2 || x2 <= px <= x1)
    }

    /// Whether `(px, py)` lies on the straight vertical run between
    /// `(x, y1)` and `(x, y2)`.
    pub open spec fn on_column_run(y1: int, y2: int, x: int, px: int, py: int) -> bool {
        px == x && (y1 <= py <= y2 || y2 <= py <= y1)
    }

    /// A map of solid wall without rooms, on which nothing has been seen and
    /// nothing stands.
    pub fn new(width: i32, height: i32) -> (map: TileMap)
        requires
            1 <= width,
            1 <= height,
            width * height <= MAX_TILES,
        ensures
            map.wf(),
            map.width == width,
            map.height == height,
            map.rooms@ == Seq::<Rect>::empty(),
            forall|i: int| 0 <= i < width * height ==> map.tiles@[i] == TileType::Wall,
            forall|i: int| 0 <= i < width * height ==> !map.revealed_tiles@[i],
            forall|i: int| 0 <= i < width * height ==> !map.visible_tiles@[i],
            forall|i: int| 0 <= i < width * height ==> !map.blocked@[i],
            forall|i: int|
                0 <= i < width * height ==> map.tile_content@[i]@ == Seq::<Entity>::empty(),
    {
        assert(0 <= width * height) by (nonlinear_arith)
            requires
                1 <= width,
                1 <= height,
        ;
        let count: usize = (width as usize) * (height as usize);
        let mut map = TileMap {
            tiles: Vec::new(),
            rooms: Vec::new(),
            width,
            height,
            revealed_tiles: Vec::new(),
            visible_tiles: Vec::new(),
            blocked: Vec::new(),
            tile_content: Vec::new(),
        };
        let mut i: usize = 0;
        while i < count
            invariant
                0 <= i <= count,
                count == width * height,
                map.width == width,
                map.height == height,
                map.rooms@ == Seq::<Rect>::empty(),
                map.tiles@.len() == i,
                map.revealed_tiles@.len() == i,
                map.visible_tiles@.len() == i,
                map.blocked@.len() == i,
                map.tile_content@.len() == i,
                forall|j: int| 0 <= j < i ==> map.tiles@[j] == TileType::Wall,
                forall|j: int| 0 <= j < i ==> !map.revealed_tiles@[j],
                forall|j: int| 0 <= j < i ==> !map.visible_tiles@[j],
                forall|j: int| 0 <= j < i ==> !map.blocked@[j],
                forall|j: int| 0 <= j < i ==> map.tile_content@[j]@ == Seq::<Entity>::empty(),
            decreases count - i,
        {
            map.tiles.push(TileType::Wall);
            map.revealed_tiles.push(false);
            map.visible_tiles.push(false);
            map.blocked.push(false);
            map.tile_content.push(Vec::new());
            i += 1;
        }
        map
    }

    /// True when the map is well formed.
    pub fn is_valid(&self) -> (ok: bool)
        ensures
            ok == self.wf(),
    {
        if self.width < 1 || self.height < 1 {
            return false;
        }
        assert(0 < self.width * self.height <= 0x7fff_ffff * 0x7fff_ffff) by (nonlinear_arith)
            requires
                1 <= self.width <= 0x7fff_ffff,
                1 <= self.height <= 0x7fff_ffff,
        ;
        let count: u64 = (self.width as u64) * (self.height as u64);
        if count > MAX_TILES as u64 {
            return false;
        }
        let count = count as usize;
        if self.tiles.len() != count || self.revealed_tiles.len() != count
            || self.visible_tiles.len() != count || self.blocked.len() != count
            || self.tile_content.len() != count {
            return false;
        }
        let mut i: usize = 0;
        while i < count
            invariant
                0 <= i <= count,
                count == self.visible_tiles@.len(),
                count == self.revealed_tiles@.len(),
                forall|j: int| 0 <= j < i && self.visible_tiles@[j] ==> self.revealed_tiles@[j],
            decreases count - i,
        {
            if self.visible_tiles[i] && !self.revealed_tiles[i] {
                return false;
            }
            i += 1;
        }
        true
    }

    /// True when `(x, y)` is a tile of this map.
    pub fn in_bounds(&self, x: i32, y: i32) -> (b: bool)
        ensures
            b == self.has_tile(x as int, y as int),
    {
        0 <= x && x < self.width && 0 <= y && y < self.height
    }

    /// The place of tile `(x, y)` in the per-tile arrays.
    pub fn xy_idx(&self, x: i32, y: i32) -> (idx: usize)
        requires
            self.sized(),
            self.has_tile(x as int, y as int),
        ensures
            idx == self.place(x as int, y as int),
            idx < self.width * self.height,
    {
        proof {
            lemma_index_in_range(self.width as int, self.height as int, x as int, y as int);
            assert(0 <= y * self.width) by (nonlinear_arith)
                requires
                    0 <= y,
                    0 < self.width,
            ;
        }
        (y as usize) * (self.width as usize) + (x as usize)
    }

    /// The tile that stands at place `idx` of the per-tile arrays.
    pub fn idx_xy(&self, idx: usize) -> (p: (i32, i32))
        requires
            self.sized(),
            idx < self.width * self.height,
        ensures
            (p.0 as int, p.1 as int) == coords_of(self.width as int, idx as int),
            self.has_tile(p.0 as int, p.1 as int),
            self.place(p.0 as int, p.1 as int) == idx,
    {
        proof {
            crate::grid::lemma_index_of_coords(self.width as int, self.height as int, idx as int);
        }
        let w = self.width as usize;
        ((idx % w) as i32, (idx / w) as i32)
    }

    /// Turns the tiles `(x, y)` with `x_lo <= x <= x_hi` into floor.
    fn carve_row(&mut self, y: i32, x_lo: i32, x_hi: i32)
        requires
            old(self).sized(),
            0 <= y < old(self).height,
            0 <= x_lo,
            x_hi < old(self).width,
        ensures
            final(self).same_but_tiles(*old(self)),
            forall|px: int, py: int|
                old(self).has_tile(px, py) ==> #[trigger] final(self).tile_at(px, py) == if py == y
                    && x_lo <= px <= x_hi {
                    TileType::Floor
                } else {
                    old(self).tile_at(px, py)
                },
    {
        let mut x = x_lo;
        while x <= x_hi
            invariant
                self.same_but_tiles(*old(self)),
                old(self).sized(),
                0 <= y < self.height,
                0 <= x_lo <= x,
                x == x_lo || x <= x_hi + 1,
                x_hi < self.width,
                forall|px: int, py: int|
                    old(self).has_tile(px, py) ==> #[trigger] self.tile_at(px, py) == if py == y
                        && x_lo <= px < x {
                        TileType::Floor
                    } else {
                        old(self).tile_at(px, py)
                    },
            decreases x_hi + 1 - x,
        {
            let idx = self.xy_idx(x, y);
            let ghost before = *self;
            self.tiles[idx] = TileType::Floor;
            proof {
                assert forall|px: int, py: int| old(self).has_tile(px, py) implies #[trigger] self.tile_at(
                    px,
                    py,
                ) == if py == y && x_lo <= px < x + 1 {
                    TileType::Floor
                } else {
                    old(self).tile_at(px, py)
                } by {
                    lemma_index_in_range(self.width as int, self.height as int, px, py);
                    if index_of(self.width as int, px, py) == idx {
                        lemma_index_injective(self.width as int, px, py, x as int, y as int);
                    } else {
                        assert(self.tile_at(px, py) == before.tile_at(px, py));
                    }
                }
            }
            x += 1;
        }
    }

    /// Digs `room` into the map: every tile of the map that the room covers
    /// becomes floor. Nothing else changes.
    pub fn apply_room_to_map(&mut self, room: &Rect)
        requires
            old(self).sized(),
        ensures
            final(self).same_but_tiles(*old(self)),
            forall|px: int, py: int|
                old(self).has_tile(px, py) ==> #[trigger] final(self).tile_at(px, py) == if room.covers(
                    px,
                    py,
                ) {
                    TileType::Floor
                } else {
                    old(self).tile_at(px, py)
                },
    {
        if room.x1 >= self.width - 1 || room.y1 >= self.height - 1 || room.x2 < 0 || room.y2 < 0 {
            return ;
        }
        let x_lo: i32 = if room.x1 < 0 {
            0
        } else {
            room.x1 + 1
        };
        let x_hi: i32 = if room.x2 >= self.width {
            self.width - 1
        } else {
            room.x2
        };
        let y_lo: i32 = if room.y1 < 0 {
            0
        } else {
            room.y1 + 1
        };
        let y_hi: i32 = if room.y2 >= self.height {
            self.height - 1
        } else {
            room.y2
        };
        let mut y = y_lo;
        while y <= y_hi
            invariant
                self.same_but_tiles(*old(self)),
                old(self).sized(),
                0 <= y_lo <= y,
                y == y_lo || y <= y_hi + 1,
                y_hi < self.height,
                0 <= x_lo,
                x_hi < self.width,
                forall|px: int, py: int|
                    (#[trigger] room.covers(px, py) && old(self).has_tile(px, py)) == (x_lo <= px
                        <= x_hi && y_lo <= py <= y_hi),
                forall|px: int, py: int|
                    old(self).has_tile(px, py) ==> #[trigger] self.tile_at(px, py) == if room.covers(
                        px,
                        py,
                    ) && py < y {
                        TileType::Floor
                    } else {
                        old(self).tile_at(px, py)
                    },
            decreases y_hi + 1 - y,
        {
            self.carve_row(y, x_lo, x_hi);
            y += 1;
        }
    }

    /// Digs the straight run between `(x1, y)` and `(x2, y)`, as far as it
    /// lies on the map. Nothing else changes.
    pub fn apply_horizontal_tunnel(&mut self, x1: i32, x2: i32, y: i32)
        requires
            old(self).sized(),
        ensures
            final(self).same_but_tiles(*old(self)),
            forall|px: int, py: int|
                old(self).has_tile(px, py) ==> #[trigger] final(self).tile_at(px, py)
                    == if TileMap::on_row_run(x1 as int, x2 as int, y as int, px, py) {
                    TileType::Floor
                } else {
                    old(self).tile_at(px, py)
                },
    {
        let lo = if x1 <= x2 {
            x1
        } else {
            x2
        };
        let hi = if x1 <= x2 {
            x2
        } else {
            x1
        };
        if y < 0 || y >= self.height || hi < 0 || lo >= self.width {
            return ;
        }
        let x_lo: i32 = if lo < 0 {
            0
        } else {
            lo
        };
        let x_hi: i32 = if hi >= self.width {
            self.width - 1
        } else {
            hi
        };
        self.carve_row(y, x_lo, x_hi);
    }

    /// Digs the straight run between `(x, y1)` and `(x, y2)`, as far as it
    /// lies on the map. Nothing else changes.
    pub fn apply_vertical_tunnel(&mut self, y1: i32, y2: i32, x: i32)
        requires
            old(self).sized(),
        ensures
            final(self).same_but_tiles(*old(self)),
            forall|px: int, py: int|
                old(self).has_tile(px, py) ==> #[trigger] final(self).tile_at(px, py)
                    == if TileMap::on_column_run(y1 as int, y2 as int, x as int, px, py) {
                    TileType::Floor
                } else {
                    old(self).tile_at(px, py)
                },
    {
        let lo = if y1 <= y2 {
            y1
        } else {
            y2
        };
        let hi = if y1 <= y2 {
            y2
        } else {
            y1
        };
        if x < 0 || x >= self.width || hi < 0 || lo >= self.height {
            return ;
        }
        let y_lo: i32 = if lo < 0 {
            0
        } else {
            lo
        };
        let y_hi: i32 = if hi >= self.height {
            self.height - 1
        } else {
            hi
        };
        let mut y = y_lo;
        while y <= y_hi
            invariant
                self.same_but_tiles(*old(self)),
                old(self).sized(),
                0 <= x < self.width,
                0 <= y_lo <= y,
                y == y_lo || y <= y_hi + 1,
                y_hi < self.height,
                forall|px: int, py: int|
                    old(self).has_tile(px, py) ==> #[trigger] self.tile_at(px, py) == if px == x
                        && y_lo <= py < y {
                        TileType::Floor
                    } else {
                        old(self).tile_at(px, py)
                    },
            decreases y_hi + 1 - y,
        {
            self.carve_row(y, x, x);
            y += 1;
        }
    }

    /// Makes the tiles of `seen` the ones the player sees now, and reveals
    /// them for good. Nothing else changes.
    pub fn show(&mut self, seen: &Vec<Coord>)
        requires
            old(self).wf(),
            forall|k: int|
                0 <= k < seen@.len() ==> old(self).has_tile(
                    (#[trigger] seen@[k]).x as int,
                    seen@[k].y as int,
                ),
        ensures
            final(self).wf(),
            final(self).same_ground(*old(self)),
            final(self).shows(*old(self), tiles_of(seen@)),
    {
        let n = self.visible_tiles.len();
        let mut i: usize = 0;
        while i < n
            invariant
                0 <= i <= n,
                n == self.visible_tiles@.len(),
                self.same_ground(*old(self)),
                self.revealed_tiles == old(self).revealed_tiles,
                forall|j: int| 0 <= j < i ==> !self.visible_tiles@[j],
            decreases n - i,
        {
            self.visible_tiles[i] = false;
            i += 1;
        }
        let ghost w = self.width as int;
        let ghost h = self.height as int;
        proof {
            assert forall|x: int, y: int| old(self).has_tile(x, y) implies #[trigger] self.is_visible(
                x,
                y,
            ) == tiles_of(seen@.take(0)).contains((x, y)) by {
                lemma_index_in_range(w, h, x, y);
            }
        }
        let mut k: usize = 0;
        while k < seen.len()
            invariant
                0 <= k <= seen@.len(),
                old(self).wf(),
                self.sized(),
                self.same_ground(*old(self)),
                w == self.width,
                h == self.height,
                forall|j: int|
                    0 <= j < seen@.len() ==> old(self).has_tile(
                        (#[trigger] seen@[j]).x as int,
                        seen@[j].y as int,
                    ),
                forall|j: int|
                    0 <= j < self.visible_tiles@.len() && self.visible_tiles@[j]
                        ==> self.revealed_tiles@[j],
                forall|x: int, y: int|
                    old(self).has_tile(x, y) ==> #[trigger] self.is_visible(x, y) == tiles_of(
                        seen@.take(k as int),
                    ).contains((x, y)),
                forall|x: int, y: int|
                    old(self).has_tile(x, y) ==> #[trigger] self.is_revealed(x, y) == (old(
                        self,
                    ).is_revealed(x, y) || tiles_of(seen@.take(k as int)).contains((x, y))),
            decreases seen@.len() - k,
        {
            let t = seen[k];
            let idx = self.xy_idx(t.x, t.y);
            let ghost before = *self;
            self.revealed_tiles[idx] = true;
            self.visible_tiles[idx] = true;
            proof {
                lemma_tiles_of_take(seen@, k as int);
                assert forall|x: int, y: int| old(self).has_tile(x, y) implies #[trigger] self.is_visible(
                    x,
                    y,
                ) == tiles_of(seen@.take(k as int + 1)).contains((x, y)) by {
                    lemma_index_in_range(w, h, x, y);
                    if index_of(w, x, y) == idx {
                        lemma_index_injective(w, x, y, t.x as int, t.y as int);
                    } else {
                        assert(self.is_visible(x, y) == before.is_visible(x, y));
                    }
                }
                assert forall|x: int, y: int| old(self).has_tile(x, y) implies #[trigger] self.is_revealed(
                    x,
                    y,
                ) == (old(self).is_revealed(x, y) || tiles_of(seen@.take(k as int + 1)).contains(
                    (x, y),
                )) by {
                    lemma_index_in_range(w, h, x, y);
                    if index_of(w, x, y) == idx {
                        lemma_index_injective(w, x, y, t.x as int, t.y as int);
                    } else {
                        assert(self.is_revealed(x, y) == before.is_revealed(x, y));
                    }
                }
            }
            k += 1;
        }
        proof {
            assert(seen@.take(seen@.len() as int) =~= seen@);
        }
    }

    /// Resets `blocked` to the walls of the map.
    pub fn populate_blocked(&mut self)
        requires
            old(self).sized(),
        ensures
            final(self).width == old(self).width,
            final(self).height == old(self).height,
            final(self).tiles == old(self).tiles,
            final(self).rooms == old(self).rooms,
            final(self).revealed_tiles == old(self).revealed_tiles,
            final(self).visible_tiles == old(self).visible_tiles,
            final(self).tile_content == old(self).tile_content,
            final(self).blocked@.len() == old(self).blocked@.len(),
            forall|i: int|
                0 <= i < final(self).blocked@.len() ==> final(self).blocked@[i] == (final(
                    self
                ).tiles@[i] == TileType::Wall),
    {
        let n = self.blocked.len();
        let mut i: usize = 0;
        while i < n
            invariant
                0 <= i <= n,
                n == self.blocked@.len(),
                n == self.tiles@.len(),
                self.width == old(self).width,
                self.height == old(self).height,
                self.tiles == old(self).tiles,
                self.rooms == old(self).rooms,
                self.revealed_tiles == old(self).revealed_tiles,
                self.visible_tiles == old(self).visible_tiles,
                self.tile_content == old(self).tile_content,
                self.blocked@.len() == old(self).blocked@.len(),
                forall|j: int| 0 <= j < i ==> self.blocked@[j] == (self.tiles@[j] == TileType::Wall),
            decreases n - i,
        {
            let wall = self.tiles[i] == TileType::Wall;
            self.blocked[i] = wall;
            i += 1;
        }
    }

    /// Empties the list of entities of every tile.
    pub fn clear_content_index(&mut self)
        requires
            old(self).sized(),
        ensures
            final(self).width == old(self).width,
            final(self).height == old(self).height,
            final(self).tiles == old(self).tiles,
            final(self).rooms == old(self).rooms,
            final(self).revealed_tiles == old(self).revealed_tiles,
            final(self).visible_tiles == old(self).visible_tiles,
            final(self).blocked == old(self).blocked,
            final(self).tile_content@.len() == old(self).tile_content@.len(),
            forall|i: int|
                0 <= i < final(self).tile_content@.len() ==> final(self).tile_content@[i]@
                    == Seq::<Entity>::empty(),
    {
        let n = self.tile_content.len();
        let mut i: usize = 0;
        while i < n
            invariant
                0 <= i <= n,
                n == self.tile_content@.len(),
                self.width == old(self).width,
                self.height == old(self).height,
                self.tiles == old(self).tiles,
                self.rooms == old(self).rooms,
                self.revealed_tiles == old(self).revealed_tiles,
                self.visible_tiles == old(self).visible_tiles,
                self.blocked == old(self).blocked,
                self.tile_content@.len() == old(self).tile_content@.len(),
                forall|j: int| 0 <= j < i ==> self.tile_content@[j]@ == Seq::<Entity>::empty(),
            decreases n - i,
        {
            self.tile_content[i] = Vec::new();
            i += 1;
        }
    }
}

/// The set of tiles that a list of coordinates names.
pub open spec fn tiles_of(points: Seq<Coord>) -> Set<(int, int)> {
    Set::new(
        |t: (int, int)|
            exists|i: int|
                0 <= i < points.len() && (#[trigger] points[i]).x == t.0 && points[i].y == t.1,
    )
}

/// One more coordinate of the list names one more tile, or one named before.
pub proof fn lemma_tiles_of_take(points: Seq<Coord>, k: int)
    requires
        0 <= k < points.len(),
    ensures
        tiles_of(points.take(k + 1)) == tiles_of(points.take(k)).insert(
            (points[k].x as int, points[k].y as int),
        ),
{
    let more = points.take(k + 1);
    let less = points.take(k);
    assert forall|t: (int, int)| tiles_of(more).contains(t) == tiles_of(less).insert(
        (points[k].x as int, points[k].y as int),
    ).contains(t) by {
        if tiles_of(more).contains(t) {
            let i = choose|i: int| 0 <= i < more.len() && (#[trigger] more[i]).x == t.0 && more[i].y == t.1;
            if i < k {
                assert(less[i] == more[i]);
            }
        }
        if tiles_of(less).contains(t) {
            let i = choose|i: int| 0 <= i < less.len() && (#[trigger] less[i]).x == t.0 && less[i].y == t.1;
            assert(more[i] == less[i]);
        }
        if t == (points[k].x as int, points[k].y as int) {
            assert(more[k] == points[k]);
        }
    }
    assert(tiles_of(more) =~= tiles_of(less).insert((points[k].x as int, points[k].y as int)));
}

} // verus!
