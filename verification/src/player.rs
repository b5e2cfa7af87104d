//! What the player's intent does to the store.

use crate::components::{Coord, Position, Viewshed, WantsToMelee};
use crate::state::RunState;
use crate::store::Entity;
use crate::world::World;
use vstd::prelude::*;

verus! {

/// One of the eight directions in which the player can step.
#[derive(Clone, Copy, Debug, PartialEq, Eq, Structural)]
pub enum Direction {
    North,
    NorthEast,
    East,
    SouthEast,
    South,
    SouthWest,
    West,
    NorthWest,
}

impl Direction {
    /// The step in `x` and `y` that the direction stands for. `y` grows
    /// towards the south.
    pub open spec fn step(self) -> (int, int) {
        match self {
            Direction::North => (0, -1),
            Direction::NorthEast => (1, -1),
            Direction::East => (1, 0),
            Direction::SouthEast => (1, 1),
            Direction::South => (0, 1),
            Direction::SouthWest => (-1, 1),
            Direction::West => (-1, 0),
            Direction::NorthWest => (-1, -1),
        }
    }

    /// The step in `x` and `y` that the direction stands for.
    pub fn delta(self) -> (d: (i32, i32))
        ensures
            (d.0 as int, d.1 as int) == self.step(),
    {
        match self {
            Direction::North => (0, -1),
            Direction::NorthEast => (1, -1),
            Direction::East => (1, 0),
            Direction::SouthEast => (1, 1),
            Direction::South => (0, 1),
            Direction::SouthWest => (-1, 1),
            Direction::West => (-1, 0),
            Direction::NorthWest => (-1, -1),
        }
    }
}

impl World {
    /// Whether the entity of slot `i` is a player that can act: it is marked
    /// as the player and has a position and a viewshed.
    pub open spec fn acting_player(self, i: int) -> bool {
        self.players.has(i) && self.positions.has(i) && self.viewsheds.has(i)
    }

    /// Whether `e` can be attacked: it is alive and has statistics.
    pub open spec fn attackable(self, e: Entity) -> bool {
        self.entities.alive(e) && self.combat_stats.has(e.index as int)
    }

    /// The first entity of `content` that can be attacked, if there is one.
    pub open spec fn first_target(self, content: Seq<Entity>) -> Option<Entity>
        decreases content.len(),
    {
        if content.len() == 0 {
            None
        } else if self.attackable(content[0]) {
            Some(content[0])
        } else {
            self.first_target(content.drop_first())
        }
    }

    /// Whether `after` is this store after the player of slot `i` tried to
    /// step by `(dx, dy)`. A step off the map does nothing. If an entity that
    /// can be attacked stands on the tile stepped to, the player asks to
    /// attack the first such entity and stays. Otherwise the player moves
    /// there unless the tile is blocked, and its viewshed becomes dirty.
    pub open spec fn stepped(self, i: int, dx: int, dy: int, after: World) -> bool {
        let x = self.positions@[i].x + dx;
        let y = self.positions@[i].y + dy;
        if !self.map.has_tile(x, y) {
            after == self
        } else {
            match self.first_target(self.map.occupants(x, y)) {
                Some(target) => {
                    &&& after.entities == self.entities
                    &&& after.same_resources(self)
                    &&& after.positions == self.positions
                    &&& after.renderables == self.renderables
                    &&& after.players == self.players
                    &&& after.viewsheds == self.viewsheds
                    &&& after.monsters == self.monsters
                    &&& after.names == self.names
                    &&& after.blockers == self.blockers
                    &&& after.combat_stats == self.combat_stats
                    &&& after.suffer_damage == self.suffer_damage
                    &&& after.wants_to_melee@ == self.wants_to_melee@.insert(i, WantsToMelee { target })
                },
                None => if self.map.is_blocked(x, y) {
                    after == self
                } else {
                    &&& after.entities == self.entities
                    &&& after.map == self.map
                    &&& after.player == self.player
                    &&& after.run_state == self.run_state
                    &&& after.alerted == self.alerted
                    &&& after.renderables == self.renderables
                    &&& after.players == self.players
                    &&& after.monsters == self.monsters
                    &&& after.names == self.names
                    &&& after.blockers == self.blockers
                    &&& after.combat_stats == self.combat_stats
                    &&& after.suffer_damage == self.suffer_damage
                    &&& after.wants_to_melee == self.wants_to_melee
                    &&& after.player_pos == (Coord { x: x as i32, y: y as i32 })
                    &&& after.positions@ == self.positions@.insert(
                        i,
                        Position { x: x as i32, y: y as i32 },
                    )
                    &&& after.viewsheds@ == self.viewsheds@.insert(
                        i,
                        Viewshed { dirty: true, ..self.viewsheds@[i] },
                    )
                },
            }
        }
    }

    /// Whether `after` is this store after the player tried to step by
    /// `(dx, dy)`. Without a player that can act nothing happens.
    pub open spec fn moved(self, dx: int, dy: int, after: World) -> bool {
        &&& forall|i: int| #[trigger] self.acting_player(i) ==> self.stepped(i, dx, dy, after)
        &&& (forall|i: int| !#[trigger] self.acting_player(i)) ==> after == self
    }

    /// The first entity of `content` that can be attacked, if there is one.
    pub fn find_target(&self, content: &Vec<Entity>) -> (r: Option<Entity>)
        requires
            self.wf(),
        ensures
            r == self.first_target(content@),
    {
        let mut k: usize = 0;
        assert(content@.skip(0) =~= content@);
        while k < content.len()
            invariant
                0 <= k <= content@.len(),
                self.wf(),
                self.first_target(content@) == self.first_target(content@.skip(k as int)),
            decreases content@.len() - k,
        {
            let e = content[k];
            proof {
                assert(content@.skip(k as int)[0] == e);
                assert(content@.skip(k as int).drop_first() =~= content@.skip(k as int + 1));
            }
            if self.combat_stats.get_for(&self.entities, e).is_some() {
                return Some(e);
            }
            k += 1;
        }
        None
    }
}

/// Lets the player try to step by `(delta_x, delta_y)`.
pub fn try_move_player(delta_x: i32, delta_y: i32, world: &mut World)
    requires
        old(world).wf(),
    ensures
        final(world).wf(),
        old(world).moved(delta_x as int, delta_y as int, *final(world)),
{
    let n = world.players.len();
    let mut i: usize = 0;
    while i < n
        invariant
            0 <= i <= n,
            *world == *old(world),
            world.wf(),
            forall|j: int| world.players.has(j) ==> 0 <= j < n,
            forall|j: int| j < i ==> !#[trigger] world.acting_player(j),
        decreases n - i,
    {
        if world.players.contains(i) && world.positions.contains(i) && world.viewsheds.contains(i) {
            proof {
                assert(world.acting_player(i as int));
                assert forall|j: int| #[trigger] world.acting_player(j) implies j == i by {
                    assert(world.players.has(j) && world.players.has(i as int));
                }
            }
            let pos = *world.positions.get(i).unwrap();
            let x: i64 = pos.x as i64 + delta_x as i64;
            let y: i64 = pos.y as i64 + delta_y as i64;
            if x < 0 || x >= world.map.width as i64 || y < 0 || y >= world.map.height as i64 {
                return ;
            }
            let x = x as i32;
            let y = y as i32;
            let idx = world.map.xy_idx(x, y);
            match world.find_target(&world.map.tile_content[idx]) {
                Some(target) => {
                    world.wants_to_melee.insert(i, WantsToMelee { target });
                },
                None => {
                    if !world.map.blocked[idx] {
                        world.positions.insert(i, Position { x, y });
                        match world.viewsheds.take(i) {
                            Some(viewshed) => {
                                world.viewsheds.insert(
                                    i,
                                    Viewshed {
                                        visible_tiles: viewshed.visible_tiles,
                                        range: viewshed.range,
                                        dirty: true,
                                    },
                                );
                            },
                            None => {},
                        }
                        world.player_pos = Coord { x, y };
                        proof {
                            assert(world.viewsheds@ =~= old(world).viewsheds@.insert(
                                i as int,
                                Viewshed { dirty: true, ..old(world).viewsheds@[i as int] },
                            ));
                        }
                    }
                },
            }
            return ;
        }
        i += 1;
    }
    proof {
        assert forall|j: int| !#[trigger] world.acting_player(j) by {
            if world.players.has(j) {
                assert(j < n);
            }
        }
    }
}

/// Takes the player's intent for this tick, if there is one, and says which
/// state the turn machine goes to: `Waiting` when nothing was asked, `Player`
/// when a step was tried.
pub fn player_input(world: &mut World, intent: Option<Direction>) -> (next: RunState)
    requires
        old(world).wf(),
    ensures
        final(world).wf(),
        match intent {
            Some(direction) => next == RunState::Player && old(world).moved(
                direction.step().0,
                direction.step().1,
                *final(world),
            ),
            None => next == RunState::Waiting && *final(world) == *old(world),
        },
{
    match intent {
        Some(direction) => {
            let (dx, dy) = direction.delta();
            try_move_player(dx, dy, world);
            RunState::Player
        },
        None => RunState::Waiting,
    }
}

} // verus!
