//! Field of view over a map, computed by the shadow-casting scan of the
//! `rltk` crate.

use crate::components::{Coord, MAX_VIEW_RANGE};
use crate::map::{tiles_of, TileMap, TileType};
use vstd::prelude::*;

verus! {

/// `rltk::Point`, the type in which a map tells the scan its dimensions. It
/// is only handed over; nothing here looks inside it.
#[verifier::external_type_specification]
#[verifier::external_body]
pub struct ExPoint(rltk::Point);

/// The tiles that the `rltk` scan reports as seen from `(x, y)` within
/// `range`, on a grid of `width` by `height` whose place `i` blocks sight
/// when `opaque[i]` holds.
pub uninterp spec fn fov_tiles(
    x: int,
    y: int,
    range: int,
    width: int,
    height: int,
    opaque: Seq<bool>,
) -> Set<(int, int)>;

impl TileMap {
    /// For each place of the map, whether its tile blocks sight.
    pub open spec fn opaque_mask(self) -> Seq<bool> {
        Seq::new(self.tiles@.len(), |i: int| self.tiles@[i] == TileType::Wall)
    }

    /// The tiles seen from `(x, y)` within `range` on this map.
    pub open spec fn seen_from(self, x: int, y: int, range: int) -> Set<(int, int)> {
        fov_tiles(x, y, range, self.width as int, self.height as int, self.opaque_mask())
    }
}

/// What the scan asks of a map: whether the tile at a place blocks sight.
/// Walls do, and so does any place beyond the map.
impl rltk::BaseMap for TileMap {
    /// True when the tile at place `idx` is a wall, as `opaque_mask` says,
    /// or when the map has no such place.
    fn is_opaque(&self, idx: usize) -> (opaque: bool)
        ensures
            opaque == (idx >= self.tiles@.len() || self.opaque_mask()[idx as int]),
    {
        idx >= self.tiles.len() || self.tiles[idx] == TileType::Wall
    }
}

/// What the scan asks of a map: its width and height, from which `rltk`
/// derives the bounds test and the row-major place of a tile.
impl rltk::Algorithm2D for TileMap {
    /// Calls `rltk::Point::new` on the width and the height. Nothing is
    /// claimed of the result.
    #[verifier::external_body]
    fn dimensions(&self) -> rltk::Point {
        rltk::Point::new(self.width, self.height)
    }
}

/// Calls `rltk::field_of_view` with this map as the scanned grid. The scan
/// asks the map for its dimensions and for the walls among its tiles and for
/// nothing else, so what it sees is a function of those, the center and the
/// range: that set of tiles has a name, `fov_tiles`. The scan gathers the
/// tiles in a hash set and hands them out as the set is walked, so each tile
/// comes once and the order is left open. The center is put in first, and
/// what lies beyond the map is dropped at the end. The center has to be on
/// the map, and the range small enough for the scan's 32-bit arithmetic.
#[verifier::external_body]
pub(crate) fn field_of_view(x: i32, y: i32, range: i32, map: &TileMap) -> (tiles: Vec<Coord>)
    requires
        map.sized(),
        map.has_tile(x as int, y as int),
        0 <= range <= MAX_VIEW_RANGE,
    ensures
        tiles_of(tiles@) == fov_tiles(
            x as int,
            y as int,
            range as int,
            map.width as int,
            map.height as int,
            map.opaque_mask(),
        ),
        tiles@.no_duplicates(),
        tiles@.contains(Coord { x, y }),
        forall|i: int|
            0 <= i < tiles@.len() ==> map.has_tile(
                (#[trigger] tiles@[i]).x as int,
                tiles@[i].y as int,
            ),
{
    let seen = rltk::field_of_view(rltk::Point::new(x, y), range, map);
    seen.iter().map(|p| Coord { x: p.x, y: p.y }).collect()
}

} // verus!
