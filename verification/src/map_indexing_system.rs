//! The spatial indexing system: which tiles are blocked, and who stands where.

use crate::grid::{index_of, lemma_index_in_range, lemma_index_injective};
use crate::map::TileType;
use crate::store::Entity;
use crate::world::World;
use vstd::prelude::*;

verus! {

impl World {
    /// Whether the entity of slot `i` stands on tile `(x, y)`.
    pub open spec fn stands_at(self, i: int, x: int, y: int) -> bool {
        self.positions.has(i) && self.positions@[i].x == x && self.positions@[i].y == y
    }

    /// Whether an entity of a slot below `n` that blocks its tile stands on
    /// `(x, y)`.
    pub open spec fn blocker_below(self, n: int, x: int, y: int) -> bool {
        exists|i: int| i < n && #[trigger] self.stands_at(i, x, y) && self.blockers.has(i)
    }

    /// Whether an entity that blocks its tile stands on `(x, y)`.
    pub open spec fn blocker_at(self, x: int, y: int) -> bool {
        exists|i: int| #[trigger] self.stands_at(i, x, y) && self.blockers.has(i)
    }

    /// Whether `e` is the handle of an entity that stands on `(x, y)`.
    pub open spec fn occupies(self, e: Entity, x: int, y: int) -> bool {
        self.stands_at(e.index as int, x, y) && e == self.entities.handle(e.index as int)
    }
}

/// Whether the entities of `list` stand in the order of their slots, each
/// slot once.
pub open spec fn ascending(list: Seq<Entity>) -> bool {
    forall|a: int, b: int|
        0 <= a < b < list.len() ==> (#[trigger] list[a]).index < (#[trigger] list[b]).index
}

/// The system that rebuilds the per-tile indices of the map.
pub struct MapIndexingSystem {}

impl MapIndexingSystem {
    /// What one run does to the store. A tile is blocked when it is a wall
    /// or an entity that blocks its tile stands on it. The entities listed
    /// for a tile are those that stand on it, in the order of their slots.
    /// Nothing else changes.
    pub open spec fn ran(before: World, after: World) -> bool {
        &&& after.entities == before.entities
        &&& after.same_components(before)
        &&& after.player == before.player
        &&& after.player_pos == before.player_pos
        &&& after.run_state == before.run_state
        &&& after.alerted == before.alerted
        &&& after.map.width == before.map.width
        &&& after.map.height == before.map.height
        &&& after.map.tiles == before.map.tiles
        &&& after.map.rooms == before.map.rooms
        &&& after.map.revealed_tiles == before.map.revealed_tiles
        &&& after.map.visible_tiles == before.map.visible_tiles
        &&& after.map.blocked@.len() == before.map.blocked@.len()
        &&& after.map.tile_content@.len() == before.map.tile_content@.len()
        &&& forall|x: int, y: int|
            before.map.has_tile(x, y) ==> #[trigger] after.map.is_blocked(x, y) == (before.map.tile_at(
                x,
                y,
            ) == TileType::Wall || before.blocker_at(x, y))
        &&& forall|x: int, y: int, e: Entity|
            before.map.has_tile(x, y) ==> #[trigger] after.map.occupants(x, y).contains(e)
                == before.occupies(e, x, y)
        &&& forall|x: int, y: int|
            before.map.has_tile(x, y) ==> ascending(#[trigger] after.map.occupants(x, y))
    }

    /// Rebuilds `blocked` and `tile_content` from where the entities stand.
    pub fn run(&mut self, world: &mut World)
        requires
            old(world).wf(),
        ensures
            final(world).wf(),
            MapIndexingSystem::ran(*old(world), *final(world)),
    {
        world.map.populate_blocked();
        world.map.clear_content_index();
        let ghost w = world.map.width as int;
        let ghost h = world.map.height as int;
        proof {
            assert forall|x: int, y: int| old(world).map.has_tile(x, y) implies
                #[trigger] world.map.is_blocked(x, y) == (old(world).map.tile_at(x, y)
                    == TileType::Wall || old(world).blocker_below(0, x, y)) by {
                lemma_index_in_range(w, h, x, y);
            }
            assert forall|x: int, y: int| old(world).map.has_tile(x, y) implies (
            #[trigger] world.map.occupants(x, y)) =~= Seq::<Entity>::empty() by {
                lemma_index_in_range(w, h, x, y);
            }
        }
        let n = world.positions.len();
        let mut i: usize = 0;
        while i < n
            invariant
                0 <= i <= n,
                forall|j: int| old(world).positions.has(j) ==> 0 <= j < n,
                old(world).wf(),
                w == world.map.width,
                h == world.map.height,
                world.map.sized(),
                world.entities == old(world).entities,
                world.same_components(*old(world)),
                world.player == old(world).player,
                world.player_pos == old(world).player_pos,
                world.run_state == old(world).run_state,
                world.alerted == old(world).alerted,
                world.map.width == old(world).map.width,
                world.map.height == old(world).map.height,
                world.map.tiles == old(world).map.tiles,
                world.map.rooms == old(world).map.rooms,
                world.map.revealed_tiles == old(world).map.revealed_tiles,
                world.map.visible_tiles == old(world).map.visible_tiles,
                forall|x: int, y: int|
                    old(world).map.has_tile(x, y) ==> #[trigger] world.map.is_blocked(x, y) == (old(
                        world,
                    ).map.tile_at(x, y) == TileType::Wall || old(world).blocker_below(i as int, x, y)),
                forall|x: int, y: int, e: Entity|
                    old(world).map.has_tile(x, y) ==> #[trigger] world.map.occupants(x, y).contains(e)
                        == (e.index < i && old(world).occupies(e, x, y)),
                forall|x: int, y: int|
                    old(world).map.has_tile(x, y) ==> ascending(#[trigger] world.map.occupants(x, y)),
            decreases n - i,
        {
            let ghost entry = *world;
            if world.positions.contains(i) {
                let pos = *world.positions.get(i).unwrap();
                let idx = world.map.xy_idx(pos.x, pos.y);
                let e = world.entities.entity_at(i).unwrap();
                let blocks = world.blockers.contains(i);
                if blocks {
                    world.map.blocked[idx] = true;
                }
                world.map.tile_content[idx].push(e);
                proof {
                    assert(old(world).stands_at(i as int, pos.x as int, pos.y as int));
                    assert forall|x: int, y: int| old(world).map.has_tile(x, y) implies
                        #[trigger] world.map.is_blocked(x, y) == (old(world).map.tile_at(x, y)
                            == TileType::Wall || old(world).blocker_below(i as int + 1, x, y)) by {
                        lemma_index_in_range(w, h, x, y);
                        if index_of(w, x, y) == idx {
                            lemma_index_injective(w, x, y, pos.x as int, pos.y as int);
                            assert(world.map.is_blocked(x, y) == (entry.map.is_blocked(x, y) || blocks));
                            assert(old(world).stands_at(i as int, x, y));
                        } else {
                            assert(world.map.is_blocked(x, y) == entry.map.is_blocked(x, y));
                            assert(!old(world).stands_at(i as int, x, y));
                        }
                        assert(entry.map.is_blocked(x, y) == (old(world).map.tile_at(x, y)
                            == TileType::Wall || old(world).blocker_below(i as int, x, y)));
                        lemma_blocker_step(*old(world), i as int, x, y);
                    }
                    assert forall|x: int, y: int, e2: Entity| old(world).map.has_tile(x, y) implies
                        #[trigger] world.map.occupants(x, y).contains(e2) == (e2.index < i + 1
                            && old(world).occupies(e2, x, y)) by {
                        lemma_index_in_range(w, h, x, y);
                        if index_of(w, x, y) == idx {
                            lemma_index_injective(w, x, y, pos.x as int, pos.y as int);
                            let was = entry.map.occupants(x, y);
                            assert(world.map.occupants(x, y) == was.push(e));
                            if was.push(e).contains(e2) {
                                let k = choose|k: int| 0 <= k < was.push(e).len() && was.push(e)[k] == e2;
                                if k < was.len() {
                                    assert(was[k] == e2);
                                    assert(was.contains(e2));
                                }
                            }
                            if was.contains(e2) {
                                let k = choose|k: int| 0 <= k < was.len() && was[k] == e2;
                                assert(was.push(e)[k] == e2);
                            }
                            if e2 == e {
                                assert(was.push(e)[was.len() as int] == e2);
                            }
                        } else {
                            assert(world.map.occupants(x, y) == entry.map.occupants(x, y));
                            assert(!old(world).stands_at(i as int, x, y));
                        }
                    }
                    assert forall|x: int, y: int| old(world).map.has_tile(x, y) implies ascending(
                        #[trigger] world.map.occupants(x, y),
                    ) by {
                        lemma_index_in_range(w, h, x, y);
                        if index_of(w, x, y) == idx {
                            lemma_index_injective(w, x, y, pos.x as int, pos.y as int);
                            let was = entry.map.occupants(x, y);
                            assert(world.map.occupants(x, y) == was.push(e));
                            assert(ascending(was));
                            assert forall|a: int, b: int| 0 <= a < b < was.push(e).len() implies (
                            #[trigger] was.push(e)[a]).index < (#[trigger] was.push(e)[b]).index by {
                                assert(was.contains(was[a]));
                                if b < was.len() {
                                    assert(was[a].index < was[b].index);
                                }
                            }
                        } else {
                            assert(world.map.occupants(x, y) == entry.map.occupants(x, y));
                        }
                    }
                }
            } else {
                proof {
                    assert forall|x: int, y: int| old(world).map.has_tile(x, y) implies
                        #[trigger] world.map.is_blocked(x, y) == (old(world).map.tile_at(x, y)
                            == TileType::Wall || old(world).blocker_below(i as int + 1, x, y)) by {
                        assert(!old(world).stands_at(i as int, x, y));
                        lemma_blocker_step(*old(world), i as int, x, y);
                    }
                }
            }
            i += 1;
        }
        proof {
            assert forall|x: int, y: int| old(world).map.has_tile(x, y) implies
                #[trigger] world.map.is_blocked(x, y) == (old(world).map.tile_at(x, y)
                    == TileType::Wall || old(world).blocker_at(x, y)) by {
                if old(world).blocker_at(x, y) {
                    let j = choose|j: int| #[trigger]
                        old(world).stands_at(j, x, y) && old(world).blockers.has(j);
                    assert(j < n && old(world).stands_at(j, x, y) && old(world).blockers.has(j));
                }
                if old(world).blocker_below(n as int, x, y) {
                    let j = choose|j: int|
                        j < n && #[trigger] old(world).stands_at(j, x, y) && old(world).blockers.has(j);
                    assert(old(world).stands_at(j, x, y) && old(world).blockers.has(j));
                }
            }
        }
    }
}

/// The blockers below `n + 1` are those below `n` and the entity of slot `n`,
/// if it blocks.
pub proof fn lemma_blocker_step(world: World, n: int, x: int, y: int)
    ensures
        world.blocker_below(n + 1, x, y) == (world.blocker_below(n, x, y) || (world.stands_at(
            n,
            x,
            y,
        ) && world.blockers.has(n))),
{
    if world.blocker_below(n + 1, x, y) {
        let j = choose|j: int| j < n + 1 && #[trigger] world.stands_at(j, x, y) && world.blockers.has(j);
        if j < n {
            assert(world.blocker_below(n, x, y));
        }
    }
    if world.blocker_below(n, x, y) {
        let j = choose|j: int| j < n && #[trigger] world.stands_at(j, x, y) && world.blockers.has(j);
        assert(j < n + 1 && world.stands_at(j, x, y) && world.blockers.has(j));
    }
    if world.stands_at(n, x, y) && world.blockers.has(n) {
        assert(n < n + 1 && world.stands_at(n, x, y) && world.blockers.has(n));
    }
}

} // verus!
