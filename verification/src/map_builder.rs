//! Digging rooms and corridors into a map of solid wall.

use crate::map::{TileMap, TileType, MAX_TILES};
use crate::random::{draw_range, roll_dice};
use crate::reach::{
    lemma_column_run_connected, lemma_connected_kept, lemma_connected_reflexive,
    lemma_connected_transitive, lemma_row_run_connected,
};
use crate::rect::{lemma_center_covered, Rect};
use crate::store::Entity;
use rltk::RandomNumberGenerator;
use vstd::prelude::*;

verus! {

/// How many rooms the generator tries to place.
pub const MAX_ROOMS: i32 = 30;

/// The smallest width and height of a generated room.
pub const MIN_SIZE: i32 = 6;

/// The width and height of a generated room stay below this.
pub const MAX_SIZE: i32 = 10;

impl TileMap {
    /// Whether `room` lies on the map and is large enough to cover its center.
    pub open spec fn room_fits(self, room: Rect) -> bool {
        &&& 0 <= room.x1
        &&& room.x2 < self.width
        &&& 0 <= room.y1
        &&& room.y2 < self.height
        &&& room.is_roomy()
    }

    /// Whether `room` can be added: it fits and overlaps none of the rooms.
    pub open spec fn accepts(self, room: Rect) -> bool {
        &&& self.room_fits(room)
        &&& forall|i: int| 0 <= i < self.rooms@.len() ==> !room.intersects(#[trigger] self.rooms@[i])
    }

    /// Whether `(px, py)` lies on the corridor from `from` to `to`: a straight
    /// run along one axis and then one along the other, the horizontal one
    /// first if `horizontal_first`.
    pub open spec fn on_corridor(
        from: (int, int),
        to: (int, int),
        horizontal_first: bool,
        px: int,
        py: int,
    ) -> bool {
        if horizontal_first {
            TileMap::on_row_run(from.0, to.0, from.1, px, py) || TileMap::on_column_run(
                from.1,
                to.1,
                to.0,
                px,
                py,
            )
        } else {
            TileMap::on_column_run(from.1, to.1, from.0, px, py) || TileMap::on_row_run(
                from.0,
                to.0,
                to.1,
                px,
                py,
            )
        }
    }

    /// Whether `(px, py)` is dug when `room` is added to this map: the room
    /// covers it, or it lies on the corridor from the center of the last room.
    pub open spec fn dug_for(self, room: Rect, horizontal_first: bool, px: int, py: int) -> bool {
        ||| room.covers(px, py)
        ||| self.rooms@.len() > 0 && TileMap::on_corridor(
            self.rooms@[self.rooms@.len() - 1].center_point(),
            room.center_point(),
            horizontal_first,
            px,
            py,
        )
    }

    /// Whether `after` is this map with `room` added to it.
    pub open spec fn grown_by(self, after: TileMap, room: Rect, horizontal_first: bool) -> bool {
        &&& after.width == self.width
        &&& after.height == self.height
        &&& after.tiles@.len() == self.tiles@.len()
        &&& after.revealed_tiles == self.revealed_tiles
        &&& after.visible_tiles == self.visible_tiles
        &&& after.blocked == self.blocked
        &&& after.tile_content == self.tile_content
        &&& after.rooms@ == self.rooms@.push(room)
        &&& forall|px: int, py: int|
            self.has_tile(px, py) ==> #[trigger] after.tile_at(px, py) == if self.dug_for(
                room,
                horizontal_first,
                px,
                py,
            ) {
                TileType::Floor
            } else {
                self.tile_at(px, py)
            }
    }

    /// No two rooms overlap.
    pub open spec fn rooms_apart(self) -> bool {
        forall|i: int, j: int|
            0 <= i < j < self.rooms@.len() ==> !(#[trigger] self.rooms@[i]).intersects(
                #[trigger] self.rooms@[j],
            )
    }

    /// Every tile that a room covers is floor.
    pub open spec fn rooms_dug(self) -> bool {
        forall|i: int, x: int, y: int|
            0 <= i < self.rooms@.len() && #[trigger] self.rooms@[i].covers(x, y) ==> self.is_floor(
                x,
                y,
            )
    }

    /// The center of every room can be reached from the center of the first.
    pub open spec fn rooms_reachable(self) -> bool {
        forall|i: int|
            0 <= i < self.rooms@.len() ==> self.connected(
                self.rooms@[0].center_point(),
                (#[trigger] self.rooms@[i]).center_point(),
            )
    }

    /// Whether `(x, y)` may have been dug for room `i`: the room covers it,
    /// or it lies on one of the two corridors from the center of the room
    /// before it.
    pub open spec fn planned(self, i: int, x: int, y: int) -> bool {
        ||| self.rooms@[i].covers(x, y)
        ||| i > 0 && TileMap::on_corridor(
            self.rooms@[i - 1].center_point(),
            self.rooms@[i].center_point(),
            true,
            x,
            y,
        )
        ||| i > 0 && TileMap::on_corridor(
            self.rooms@[i - 1].center_point(),
            self.rooms@[i].center_point(),
            false,
            x,
            y,
        )
    }

    /// Every floor tile was dug for a room or for a corridor between two
    /// rooms that follow each other; all else is wall.
    pub open spec fn floor_is_dug(self) -> bool {
        forall|x: int, y: int| #[trigger]
            self.is_floor(x, y) ==> exists|i: int|
                0 <= i < self.rooms@.len() && #[trigger] self.planned(i, x, y)
    }

    /// Every room keeps off the last column and the last row of the map.
    pub open spec fn rooms_inset(self) -> bool {
        forall|i: int|
            0 <= i < self.rooms@.len() ==> (#[trigger] self.rooms@[i]).x2 <= self.width - 2
                && self.rooms@[i].y2 <= self.height - 2
    }

    /// No tile on the border of the map is floor.
    pub open spec fn enclosed(self) -> bool {
        forall|x: int, y: int| #[trigger]
            self.is_floor(x, y) ==> 1 <= x <= self.width - 2 && 1 <= y <= self.height - 2
    }

    /// The rooms fit the map, lie apart, are dug out, and can all be reached
    /// from the first; and nothing but rooms and corridors is dug.
    pub open spec fn layout_ok(self) -> bool {
        &&& forall|i: int| 0 <= i < self.rooms@.len() ==> self.room_fits(#[trigger] self.rooms@[i])
        &&& self.rooms_apart()
        &&& self.rooms_dug()
        &&& self.rooms_reachable()
        &&& self.floor_is_dug()
    }

    /// True when `room` fits the map and overlaps none of its rooms.
    pub fn accepts_room(&self, room: &Rect) -> (ok: bool)
        ensures
            ok == self.accepts(*room),
    {
        if room.x1 < 0 || room.x2 >= self.width || room.y1 < 0 || room.y2 >= self.height {
            return false;
        }
        if room.x2 < room.x1 || room.x2 - room.x1 < 2 || room.y2 < room.y1 || room.y2 - room.y1 < 2 {
            return false;
        }
        let mut i: usize = 0;
        while i < self.rooms.len()
            invariant
                0 <= i <= self.rooms@.len(),
                forall|j: int| 0 <= j < i ==> !room.intersects(#[trigger] self.rooms@[j]),
            decreases self.rooms@.len() - i,
        {
            if room.intersect(&self.rooms[i]) {
                return false;
            }
            i += 1;
        }
        true
    }

    /// Adds `room` if the map accepts it, and reports whether it did. The
    /// room is dug out and, unless it is the first, joined to the room added
    /// before it by a corridor between the two centers. A room that is not
    /// accepted leaves the map as it was.
    pub fn place_room(&mut self, room: Rect, horizontal_first: bool) -> (accepted: bool)
        requires
            old(self).sized(),
        ensures
            accepted == old(self).accepts(room),
            accepted ==> old(self).grown_by(*final(self), room, horizontal_first),
            !accepted ==> *final(self) == *old(self),
            old(self).wf() ==> final(self).wf(),
            old(self).layout_ok() ==> final(self).layout_ok(),
    {
        if !self.accepts_room(&room) {
            return false;
        }
        let ghost before = *self;
        self.apply_room_to_map(&room);
        let ghost roomed = *self;
        let ghost mut half_joined = *self;
        if self.rooms.len() > 0 {
            let (new_x, new_y) = room.center();
            let (prev_x, prev_y) = self.rooms[self.rooms.len() - 1].center();
            if horizontal_first {
                self.apply_horizontal_tunnel(prev_x, new_x, prev_y);
                proof {
                    half_joined = *self;
                }
                self.apply_vertical_tunnel(prev_y, new_y, new_x);
            } else {
                self.apply_vertical_tunnel(prev_y, new_y, prev_x);
                proof {
                    half_joined = *self;
                }
                self.apply_horizontal_tunnel(prev_x, new_x, new_y);
            }
        }
        let ghost joined = *self;
        self.rooms.push(room);
        proof {
            assert forall|px: int, py: int| before.has_tile(px, py) implies #[trigger] self.tile_at(
                px,
                py,
            ) == if before.dug_for(room, horizontal_first, px, py) {
                TileType::Floor
            } else {
                before.tile_at(px, py)
            } by {
                assert(self.tile_at(px, py) == joined.tile_at(px, py));
                if before.rooms@.len() > 0 {
                    assert(joined.tile_at(px, py) == TileType::Floor || joined.tile_at(px, py)
                        == half_joined.tile_at(px, py));
                    assert(half_joined.tile_at(px, py) == TileType::Floor || half_joined.tile_at(
                        px,
                        py,
                    ) == roomed.tile_at(px, py));
                }
                assert(roomed.tile_at(px, py) == TileType::Floor || roomed.tile_at(px, py)
                    == before.tile_at(px, py));
            }
            assert(before.grown_by(*self, room, horizontal_first));
            if before.layout_ok() {
                lemma_grown_layout(before, *self, room, horizontal_first);
            }
        }
        true
    }

    /// A map of `width` by `height` tiles with up to `MAX_ROOMS` rooms, dug
    /// at random places out of solid wall and joined by corridors. The first
    /// candidate is always accepted, so the map has at least one room. The
    /// rooms keep off the edges, so the border of the map stays wall.
    pub fn new_map_rooms_and_corridors(
        width: i32,
        height: i32,
        rng: &mut RandomNumberGenerator,
    ) -> (map: TileMap)
        requires
            MAX_SIZE < width,
            MAX_SIZE < height,
            width * height <= MAX_TILES,
        ensures
            map.wf(),
            map.width == width,
            map.height == height,
            map.layout_ok(),
            map.rooms_inset(),
            map.enclosed(),
            1 <= map.rooms@.len() <= MAX_ROOMS,
            forall|i: int|
                0 <= i < map.rooms@.len() ==> MIN_SIZE <= (#[trigger] map.rooms@[i]).x2
                    - map.rooms@[i].x1 < MAX_SIZE && MIN_SIZE <= map.rooms@[i].y2
                    - map.rooms@[i].y1 < MAX_SIZE,
            forall|i: int| 0 <= i < width * height ==> !map.revealed_tiles@[i],
            forall|i: int| 0 <= i < width * height ==> !map.visible_tiles@[i],
            forall|i: int| 0 <= i < width * height ==> !map.blocked@[i],
            forall|i: int|
                0 <= i < width * height ==> map.tile_content@[i]@ == Seq::<Entity>::empty(),
    {
        let mut map = TileMap::new(width, height);
        let ghost blank = map;
        proof {
            assert forall|x: int, y: int| !#[trigger] map.is_floor(x, y) by {
                if map.has_tile(x, y) {
                    crate::grid::lemma_index_in_range(width as int, height as int, x, y);
                }
            }
        }
        let mut attempt: i32 = 0;
        while attempt < MAX_ROOMS
            invariant
                0 <= attempt <= MAX_ROOMS,
                MAX_SIZE < width,
                MAX_SIZE < height,
                map.wf(),
                map.width == width,
                map.height == height,
                map.layout_ok(),
                map.rooms_inset(),
                map.rooms@.len() <= attempt,
                attempt > 0 ==> map.rooms@.len() >= 1,
                forall|i: int|
                    0 <= i < map.rooms@.len() ==> MIN_SIZE <= (#[trigger] map.rooms@[i]).x2
                        - map.rooms@[i].x1 < MAX_SIZE && MIN_SIZE <= map.rooms@[i].y2
                        - map.rooms@[i].y1 < MAX_SIZE,
                map.revealed_tiles == blank.revealed_tiles,
                map.visible_tiles == blank.visible_tiles,
                map.blocked == blank.blocked,
                map.tile_content == blank.tile_content,
            decreases MAX_ROOMS - attempt,
        {
            let w = draw_range(rng, MIN_SIZE, MAX_SIZE);
            let h = draw_range(rng, MIN_SIZE, MAX_SIZE);
            let x = roll_dice(rng, 1, width - w - 1) - 1;
            let y = roll_dice(rng, 1, height - h - 1) - 1;
            let room = Rect::new(x, y, w, h);
            if map.accepts_room(&room) {
                let horizontal_first = map.rooms.len() == 0 || draw_range(rng, 0, 2) == 1;
                let ghost before = map;
                map.place_room(room, horizontal_first);
                assert(map.rooms@ == before.rooms@.push(room));
            }
            attempt += 1;
        }
        proof {
            lemma_inset_rooms_enclose(map);
        }
        map
    }
}

/// When the rooms keep off the edges of the map, so do the corridors between
/// their centers: the border of the map stays wall.
pub proof fn lemma_inset_rooms_enclose(map: TileMap)
    requires
        map.layout_ok(),
        map.rooms_inset(),
    ensures
        map.enclosed(),
{
    assert forall|x: int, y: int| #[trigger] map.is_floor(x, y) implies 1 <= x <= map.width - 2 && 1
        <= y <= map.height - 2 by {
        let i = choose|i: int| 0 <= i < map.rooms@.len() && #[trigger] map.planned(i, x, y);
        let room = map.rooms@[i];
        assert(map.room_fits(room));
        lemma_center_covered(room);
        if i > 0 {
            let last = map.rooms@[i - 1];
            assert(map.room_fits(last));
            lemma_center_covered(last);
        }
    }
}

/// Adding an accepted room to a map whose layout is in order leaves the
/// layout in order: the new room is dug out, and its center can be reached
/// from the first room by way of the corridor.
pub proof fn lemma_grown_layout(before: TileMap, after: TileMap, room: Rect, horizontal_first: bool)
    requires
        before.sized(),
        before.layout_ok(),
        before.accepts(room),
        before.grown_by(after, room, horizontal_first),
    ensures
        after.layout_ok(),
{
    let n = before.rooms@.len() as int;
    assert forall|x: int, y: int| #[trigger] before.is_floor(x, y) implies after.is_floor(x, y) by {
        assert(after.tile_at(x, y) == TileType::Floor);
    }
    assert(before.floor_kept_by(after));
    assert forall|i: int| 0 <= i < after.rooms@.len() implies after.room_fits(
        #[trigger] after.rooms@[i],
    ) by {
        if i < n {
            assert(before.room_fits(before.rooms@[i]));
        }
    }
    assert forall|i: int, j: int| 0 <= i < j < after.rooms@.len() implies !(
    #[trigger] after.rooms@[i]).intersects(#[trigger] after.rooms@[j]) by {
        if j < n {
            assert(!before.rooms@[i].intersects(before.rooms@[j]));
        } else {
            assert(!room.intersects(before.rooms@[i]));
        }
    }
    assert forall|i: int, x: int, y: int|
        0 <= i < after.rooms@.len() && #[trigger] after.rooms@[i].covers(x, y) implies after.is_floor(
        x,
        y,
    ) by {
        if i < n {
            assert(before.rooms@[i].covers(x, y));
            assert(before.is_floor(x, y));
        } else {
            assert(room.covers(x, y));
            assert(before.has_tile(x, y));
            assert(after.tile_at(x, y) == TileType::Floor);
        }
    }
    assert forall|x: int, y: int| #[trigger] after.is_floor(x, y) implies exists|i: int|
        0 <= i < after.rooms@.len() && #[trigger] after.planned(i, x, y) by {
        if before.is_floor(x, y) {
            let i = choose|i: int| 0 <= i < before.rooms@.len() && #[trigger] before.planned(i, x, y);
            assert(after.rooms@[i] == before.rooms@[i]);
            if i > 0 {
                assert(after.rooms@[i - 1] == before.rooms@[i - 1]);
            }
            assert(after.planned(i, x, y));
        } else {
            assert(before.dug_for(room, horizontal_first, x, y));
            assert(after.rooms@[n] == room);
            if n > 0 {
                assert(after.rooms@[n - 1] == before.rooms@[n - 1]);
            }
            assert(after.planned(n, x, y));
        }
    }
    let center = room.center_point();
    lemma_center_covered(room);
    assert(after.is_floor(center.0, center.1)) by {
        assert(after.rooms@[n] == room);
        assert(after.rooms@[n].covers(center.0, center.1));
    }
    if n == 0 {
        lemma_connected_reflexive(after, center);
    } else {
        let first = before.rooms@[0].center_point();
        let last = before.rooms@[n - 1];
        let prev = last.center_point();
        lemma_center_covered(last);
        assert(before.room_fits(last));
        assert(before.connected(first, prev));
        lemma_connected_kept(before, after, first, prev);
        if horizontal_first {
            let corner = (center.0, prev.1);
            assert forall|x: int| prev.0 <= x <= center.0 || center.0 <= x <= prev.0 implies
                #[trigger] after.is_floor(x, prev.1) by {
                assert(TileMap::on_row_run(prev.0, center.0, prev.1, x, prev.1));
                assert(before.has_tile(x, prev.1));
                assert(after.tile_at(x, prev.1) == TileType::Floor);
            }
            lemma_row_run_connected(after, prev.0, center.0, prev.1);
            assert forall|y: int| prev.1 <= y <= center.1 || center.1 <= y <= prev.1 implies
                #[trigger] after.is_floor(center.0, y) by {
                assert(TileMap::on_column_run(prev.1, center.1, center.0, center.0, y));
                assert(before.has_tile(center.0, y));
                assert(after.tile_at(center.0, y) == TileType::Floor);
            }
            lemma_column_run_connected(after, prev.1, center.1, center.0);
            lemma_connected_transitive(after, prev, corner, center);
        } else {
            let corner = (prev.0, center.1);
            assert forall|y: int| prev.1 <= y <= center.1 || center.1 <= y <= prev.1 implies
                #[trigger] after.is_floor(prev.0, y) by {
                assert(TileMap::on_column_run(prev.1, center.1, prev.0, prev.0, y));
                assert(before.has_tile(prev.0, y));
                assert(after.tile_at(prev.0, y) == TileType::Floor);
            }
            lemma_column_run_connected(after, prev.1, center.1, prev.0);
            assert forall|x: int| prev.0 <= x <= center.0 || center.0 <= x <= prev.0 implies
                #[trigger] after.is_floor(x, center.1) by {
                assert(TileMap::on_row_run(prev.0, center.0, center.1, x, center.1));
                assert(before.has_tile(x, center.1));
                assert(after.tile_at(x, center.1) == TileType::Floor);
            }
            lemma_row_run_connected(after, prev.0, center.0, center.1);
            lemma_connected_transitive(after, prev, corner, center);
        }
        lemma_connected_transitive(after, first, prev, center);
    }
    assert forall|i: int| 0 <= i < after.rooms@.len() implies after.connected(
        after.rooms@[0].center_point(),
        (#[trigger] after.rooms@[i]).center_point(),
    ) by {
        if i < n {
            assert(before.connected(before.rooms@[0].center_point(), before.rooms@[i].center_point()));
            lemma_connected_kept(
                before,
                after,
                before.rooms@[0].center_point(),
                before.rooms@[i].center_point(),
            );
        }
    }
}

} // verus!
