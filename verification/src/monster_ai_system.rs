//! The adversary decision system: which adversaries have the player in sight.

use crate::components::Coord;
use crate::store::Entity;
use crate::world::World;
use vstd::prelude::*;

verus! {

impl World {
    /// Whether the entity of slot `i` is an adversary whose viewshed holds
    /// the tile on which the player stands.
    pub open spec fn spots_player(self, i: int) -> bool {
        &&& self.monsters.has(i)
        &&& self.viewsheds.has(i)
        &&& self.viewsheds@[i].visible_tiles@.contains(self.player_pos)
    }
}

/// True when `tile` is one of `tiles`.
pub fn sees(tiles: &Vec<Coord>, tile: Coord) -> (found: bool)
    ensures
        found == tiles@.contains(tile),
{
    let mut k: usize = 0;
    while k < tiles.len()
        invariant
            0 <= k <= tiles@.len(),
            forall|j: int| 0 <= j < k ==> tiles@[j] != tile,
        decreases tiles@.len() - k,
    {
        if tiles[k] == tile {
            return true;
        }
        k += 1;
    }
    false
}

/// The system that makes the adversaries' decisions.
pub struct MonsterAI {}

impl MonsterAI {
    /// What one run does to the store: `alerted` becomes the list of the
    /// adversaries that have the player in sight, in the order of their
    /// slots, and no others. An adversary that does not see the player stays
    /// idle. Nothing else changes.
    pub open spec fn ran(before: World, after: World) -> bool {
        &&& after.entities == before.entities
        &&& after.same_components(before)
        &&& after.map == before.map
        &&& after.player == before.player
        &&& after.player_pos == before.player_pos
        &&& after.run_state == before.run_state
        &&& forall|k: int|
            0 <= k < after.alerted@.len() ==> before.spots_player(
                (#[trigger] after.alerted@[k]).index as int,
            ) && after.alerted@[k] == before.entities.handle(after.alerted@[k].index as int)
        &&& forall|i: int| #[trigger]
            before.spots_player(i) ==> after.alerted@.contains(before.entities.handle(i))
        &&& forall|a: int, b: int|
            0 <= a < b < after.alerted@.len() ==> (#[trigger] after.alerted@[a]).index < (
            #[trigger] after.alerted@[b]).index
    }

    /// Decides for every adversary whether it has spotted the player.
    pub fn run(&mut self, world: &mut World)
        requires
            old(world).wf(),
        ensures
            final(world).wf(),
            MonsterAI::ran(*old(world), *final(world)),
    {
        let mut alerted: Vec<Entity> = Vec::new();
        let n = world.monsters.len();
        let mut i: usize = 0;
        while i < n
            invariant
                0 <= i <= n,
                *world == *old(world),
                world.wf(),
                forall|j: int| world.monsters.has(j) ==> 0 <= j < n,
                forall|k: int|
                    0 <= k < alerted@.len() ==> world.spots_player((#[trigger] alerted@[k]).index as int)
                        && alerted@[k] == world.entities.handle(alerted@[k].index as int)
                        && alerted@[k].index < i,
                forall|j: int|
                    j < i && #[trigger] world.spots_player(j) ==> alerted@.contains(
                        world.entities.handle(j),
                    ),
                forall|a: int, b: int|
                    0 <= a < b < alerted@.len() ==> (#[trigger] alerted@[a]).index < (
                    #[trigger] alerted@[b]).index,
            decreases n - i,
        {
            let ghost listed = alerted@;
            if world.monsters.contains(i) {
                let spotted = match world.viewsheds.get(i) {
                    Some(viewshed) => sees(&viewshed.visible_tiles, world.player_pos),
                    None => false,
                };
                if spotted {
                    let e = world.entities.entity_at(i).unwrap();
                    alerted.push(e);
                    assert(alerted@[listed.len() as int] == e);
                }
            }
            proof {
                assert forall|j: int| j < i + 1 && #[trigger] world.spots_player(j) implies alerted@.contains(
                    world.entities.handle(j),
                ) by {
                    if j < i {
                        let k = choose|k: int|
                            0 <= k < listed.len() && listed[k] == world.entities.handle(j);
                        assert(alerted@[k] == world.entities.handle(j));
                    } else {
                        assert(alerted@[listed.len() as int] == world.entities.handle(j));
                    }
                }
            }
            i += 1;
        }
        world.alerted = alerted;
    }
}

} // verus!
