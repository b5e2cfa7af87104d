//! The visibility system: what each entity sees, and what the player has
//! seen of the map.

use crate::components::Viewshed;
use crate::fov::field_of_view;
use crate::map::tiles_of;
use crate::world::World;
use vstd::prelude::*;

verus! {

impl World {
    /// Whether the entity of slot `i` has to look anew: it has a position and
    /// a viewshed, and the viewshed is dirty.
    pub open spec fn looks_anew(self, i: int) -> bool {
        self.viewsheds.has(i) && self.positions.has(i) && self.viewsheds@[i].dirty
    }

    /// Whether `seen` is the viewshed of slot `i` after the entity has looked
    /// anew: it lists, each once, the tiles in the field of view from the
    /// entity's position within its range, and it is no longer dirty.
    pub open spec fn refreshes(self, i: int, seen: Viewshed) -> bool {
        &&& seen.range == self.viewsheds@[i].range
        &&& !seen.dirty
        &&& seen.visible_tiles@.no_duplicates()
        &&& tiles_of(seen.visible_tiles@) == self.map.seen_from(
            self.positions@[i].x as int,
            self.positions@[i].y as int,
            seen.range as int,
        )
        &&& forall|k: int|
            0 <= k < seen.visible_tiles@.len() ==> self.map.has_tile(
                (#[trigger] seen.visible_tiles@[k]).x as int,
                seen.visible_tiles@[k].y as int,
            )
    }
}

/// The system that keeps viewsheds up to date.
pub struct VisibilitySystem {}

impl VisibilitySystem {
    /// What one run does to the store. An entity that has to look anew gets
    /// its viewshed computed; every other viewshed stays as it is. If the
    /// player looked anew, the map shows what the player sees and remembers
    /// it as revealed; otherwise the map stays as it is. Nothing else changes.
    pub open spec fn ran(before: World, after: World) -> bool {
        &&& after.entities == before.entities
        &&& after.player == before.player
        &&& after.player_pos == before.player_pos
        &&& after.run_state == before.run_state
        &&& after.alerted == before.alerted
        &&& after.positions == before.positions
        &&& after.renderables == before.renderables
        &&& after.players == before.players
        &&& after.monsters == before.monsters
        &&& after.names == before.names
        &&& after.blockers == before.blockers
        &&& after.combat_stats == before.combat_stats
        &&& after.wants_to_melee == before.wants_to_melee
        &&& after.suffer_damage == before.suffer_damage
        &&& after.viewsheds@.dom() == before.viewsheds@.dom()
        &&& forall|i: int| #[trigger]
            before.viewsheds.has(i) ==> if before.looks_anew(i) {
                before.refreshes(i, after.viewsheds@[i])
            } else {
                after.viewsheds@[i] == before.viewsheds@[i]
            }
        &&& after.map.same_ground(before.map)
        &&& forall|i: int|
            before.looks_anew(i) && #[trigger] before.players.has(i) ==> after.map.shows(
                before.map,
                tiles_of(after.viewsheds@[i].visible_tiles@),
            )
        &&& (forall|i: int| !(before.looks_anew(i) && #[trigger] before.players.has(i)))
            ==> after.map.visible_tiles@ == before.map.visible_tiles@
            && after.map.revealed_tiles@ == before.map.revealed_tiles@
    }

    /// Brings every dirty viewshed up to date.
    pub fn run(&mut self, world: &mut World)
        requires
            old(world).wf(),
        ensures
            final(world).wf(),
            final(world).map.visible_within_revealed(),
            VisibilitySystem::ran(*old(world), *final(world)),
    {
        let n = world.viewsheds.len();
        let mut i: usize = 0;
        while i < n
            invariant
                0 <= i <= n,
                forall|j: int| old(world).viewsheds.has(j) ==> 0 <= j < n,
                old(world).wf(),
                world.map.wf(),
                world.entities == old(world).entities,
                world.player == old(world).player,
                world.player_pos == old(world).player_pos,
                world.run_state == old(world).run_state,
                world.alerted == old(world).alerted,
                world.positions == old(world).positions,
                world.renderables == old(world).renderables,
                world.players == old(world).players,
                world.monsters == old(world).monsters,
                world.names == old(world).names,
                world.blockers == old(world).blockers,
                world.combat_stats == old(world).combat_stats,
                world.wants_to_melee == old(world).wants_to_melee,
                world.suffer_damage == old(world).suffer_damage,
                world.viewsheds@.dom() == old(world).viewsheds@.dom(),
                forall|j: int| #[trigger]
                    old(world).viewsheds.has(j) ==> if j < i && old(world).looks_anew(j) {
                        old(world).refreshes(j, world.viewsheds@[j])
                    } else {
                        world.viewsheds@[j] == old(world).viewsheds@[j]
                    },
                world.map.same_ground(old(world).map),
                forall|j: int|
                    j < i && old(world).looks_anew(j) && #[trigger] old(world).players.has(j)
                        ==> world.map.shows(
                        old(world).map,
                        tiles_of(world.viewsheds@[j].visible_tiles@),
                    ),
                (forall|j: int|
                    !(j < i && old(world).looks_anew(j) && #[trigger] old(world).players.has(j)))
                    ==> world.map.visible_tiles == old(world).map.visible_tiles
                    && world.map.revealed_tiles == old(world).map.revealed_tiles,
            decreases n - i,
        {
            let ghost entry = *world;
            let dirty = match world.viewsheds.get(i) {
                Some(viewshed) => viewshed.dirty,
                None => false,
            };
            if dirty && world.positions.contains(i) {
                let range = world.viewsheds.get(i).unwrap().range;
                let pos = *world.positions.get(i).unwrap();
                assert(old(world).looks_anew(i as int));
                assert(old(world).map.opaque_mask() =~= world.map.opaque_mask());
                let seen = field_of_view(pos.x, pos.y, range, &world.map);
                if world.players.contains(i) {
                    proof {
                        assert forall|j: int|
                            !(j < i && old(world).looks_anew(j) && #[trigger] old(world).players.has(
                                j,
                            )) by {
                            if old(world).players.has(j) {
                                assert(old(world).players.has(i as int));
                            }
                        }
                    }
                    world.map.show(&seen);
                }
                world.viewsheds.insert(i, Viewshed { visible_tiles: seen, range, dirty: false });
                proof {
                    assert(world.viewsheds@.dom() =~= old(world).viewsheds@.dom());
                    assert(old(world).refreshes(i as int, world.viewsheds@[i as int]));
                    assert forall|j: int|
                        j < i + 1 && old(world).looks_anew(j) && #[trigger] old(world).players.has(
                            j,
                        ) implies world.map.shows(
                        old(world).map,
                        tiles_of(world.viewsheds@[j].visible_tiles@),
                    ) by {
                        if j < i {
                            assert(old(world).players.has(i as int) ==> j == i);
                            assert(world.viewsheds@[j] == entry.viewsheds@[j]);
                        }
                    }
                    if forall|j: int|
                        !(j < i + 1 && old(world).looks_anew(j) && #[trigger] old(world).players.has(j)) {
                        assert(!old(world).players.has(i as int));
                        assert forall|j: int|
                            !(j < i && old(world).looks_anew(j) && #[trigger] old(world).players.has(
                                j,
                            )) by {
                            assert(!(j < i + 1 && old(world).looks_anew(j) && old(world).players.has(j)));
                        }
                    }
                }
            } else {
                proof {
                    assert(!old(world).looks_anew(i as int));
                    if forall|j: int|
                        !(j < i + 1 && old(world).looks_anew(j) && #[trigger] old(world).players.has(j)) {
                        assert forall|j: int|
                            !(j < i && old(world).looks_anew(j) && #[trigger] old(world).players.has(
                                j,
                            )) by {
                            assert(!(j < i + 1 && old(world).looks_anew(j) && old(world).players.has(j)));
                        }
                    }
                }
            }
            i += 1;
        }
        proof {
            if forall|j: int| !(old(world).looks_anew(j) && #[trigger] old(world).players.has(j)) {
                assert forall|j: int|
                    !(j < n && old(world).looks_anew(j) && #[trigger] old(world).players.has(j)) by {
                    assert(!(old(world).looks_anew(j) && old(world).players.has(j)));
                }
            }
        }
    }
}

/// What is visible after a run has been revealed: a run keeps the map well
/// formed.
pub proof fn lemma_visible_stays_within_revealed(before: World, after: World)
    requires
        before.map.wf(),
        VisibilitySystem::ran(before, after),
    ensures
        after.map.wf(),
        after.map.visible_within_revealed(),
{
    let w = before.map.width as int;
    let h = before.map.height as int;
    if exists|i: int| before.looks_anew(i) && #[trigger] before.players.has(i) {
        let p = choose|i: int| before.looks_anew(i) && #[trigger] before.players.has(i);
        let seen = tiles_of(after.viewsheds@[p].visible_tiles@);
        assert(after.map.shows(before.map, seen));
        assert forall|k: int|
            0 <= k < after.map.visible_tiles@.len() && after.map.visible_tiles@[k] implies
            after.map.revealed_tiles@[k] by {
            crate::grid::lemma_index_of_coords(w, h, k);
            let (x, y) = crate::grid::coords_of(w, k);
            assert(after.map.is_visible(x, y) == seen.contains((x, y)));
            assert(after.map.is_revealed(x, y) == (before.map.is_revealed(x, y) || seen.contains(
                (x, y),
            )));
        }
    }
}

/// A viewshed that is not dirty is not computed anew: a run leaves it as it
/// is.
pub proof fn lemma_clean_viewshed_kept(before: World, after: World, i: int)
    requires
        VisibilitySystem::ran(before, after),
        before.viewsheds.has(i),
        !before.viewsheds@[i].dirty,
    ensures
        after.viewsheds.has(i),
        after.viewsheds@[i] == before.viewsheds@[i],
{
}

/// A second run right after a first one finds nothing to do: no viewshed
/// changes, and the map shows and remembers what it did.
pub proof fn lemma_second_run_changes_nothing(before: World, once: World, twice: World)
    requires
        VisibilitySystem::ran(before, once),
        VisibilitySystem::ran(once, twice),
    ensures
        twice.viewsheds@ == once.viewsheds@,
        twice.map.visible_tiles@ == once.map.visible_tiles@,
        twice.map.revealed_tiles@ == once.map.revealed_tiles@,
{
    assert forall|i: int| once.viewsheds.has(i) implies !once.looks_anew(i) by {
        assert(before.viewsheds.has(i));
    }
    assert forall|i: int| once.viewsheds.has(i) implies twice.viewsheds@[i] == once.viewsheds@[i] by {
        assert(!once.looks_anew(i));
    }
    assert(twice.viewsheds@ =~= once.viewsheds@);
    assert forall|i: int| !(once.looks_anew(i) && #[trigger] once.players.has(i)) by {
        if once.looks_anew(i) {
            assert(once.viewsheds.has(i));
        }
    }
}

} // verus!
