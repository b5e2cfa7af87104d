//! The turn scheduler: the state of the turn machine, the fixed order in
//! which the systems run, and what one tick does.

use crate::components::Renderable;
use crate::damage_system::{delete_the_dead, DamageSystem};
use crate::map_indexing_system::MapIndexingSystem;
use crate::monster_ai_system::MonsterAI;
use crate::player::{player_input, Direction};
use crate::visibility_system::VisibilitySystem;
use crate::world::World;
use vstd::prelude::*;

verus! {

/// Where the game stands in the cycle of turns.
#[derive(Clone, Copy, Debug, PartialEq, Eq, Structural)]
pub enum RunState {
    /// Waiting for the player to act.
    Waiting,
    /// Before the first tick: the systems have not run yet.
    Pre,
    /// The player has acted and the world has not answered yet.
    Player,
    /// The adversaries' turn.
    Monster,
    /// The player is dead. Nothing runs any more.
    GameOver,
}

impl RunState {
    /// The state that follows this one when nobody dies: the table of the
    /// turn machine. Only `Waiting` looks at the player's intent.
    pub open spec fn successor(self, intent: Option<Direction>) -> RunState {
        match self {
            RunState::Pre => RunState::Waiting,
            RunState::Waiting => if intent is Some {
                RunState::Player
            } else {
                RunState::Waiting
            },
            RunState::Player => RunState::Monster,
            RunState::Monster => RunState::Waiting,
            RunState::GameOver => RunState::GameOver,
        }
    }

    /// Whether a tick that starts in this state runs the systems.
    pub open spec fn runs_systems(self) -> bool {
        self == RunState::Pre || self == RunState::Player || self == RunState::Monster
    }
}

/// An entity as it is to be drawn: where, and how.
#[derive(Clone, Copy, Debug, PartialEq, Eq, Structural)]
pub struct Sprite {
    pub x: i32,
    pub y: i32,
    pub renderable: Renderable,
}

/// The game: the store and everything in it.
pub struct State {
    pub ecs: World,
}

impl State {
    /// Whether `w1` to `w4` are the stores between the five steps that lead
    /// from `before` to `after`: visibility, adversary decisions, spatial
    /// indexing, damage resolution and maintenance, in that order.
    pub open spec fn pipeline_steps(
        before: World,
        w1: World,
        w2: World,
        w3: World,
        w4: World,
        after: World,
    ) -> bool {
        &&& VisibilitySystem::ran(before, w1)
        &&& MonsterAI::ran(w1, w2)
        &&& MapIndexingSystem::ran(w2, w3)
        &&& DamageSystem::ran(w3, w4)
        &&& w4.maintained(after)
    }

    /// Whether `after` is `before` after the systems ran over it, each once
    /// and in their fixed order, and the store was maintained.
    pub open spec fn pipeline_ran(before: World, after: World) -> bool {
        exists|w1: World, w2: World, w3: World, w4: World| #[trigger]
            State::pipeline_steps(before, w1, w2, w3, w4, after)
    }

    /// Whether `acted` is `before` after the part of a tick that depends on
    /// the state of the turn machine: the systems run, or the player's
    /// intent is taken, or nothing happens.
    pub open spec fn turn_taken(before: World, intent: Option<Direction>, acted: World) -> bool {
        match before.run_state {
            RunState::Pre | RunState::Player | RunState::Monster => State::pipeline_ran(before, acted),
            RunState::Waiting => match intent {
                Some(direction) => before.moved(direction.step().0, direction.step().1, acted),
                None => acted == before,
            },
            RunState::GameOver => acted == before,
        }
    }

    /// Whether `acted` and `culled` are the stores between the steps that
    /// lead from `before` to `after` in one tick: the turn is taken, then the
    /// dead are destroyed, then the state of the turn machine is written.
    pub open spec fn tick_steps(
        before: World,
        intent: Option<Direction>,
        acted: World,
        culled: World,
        after: World,
    ) -> bool {
        &&& State::turn_taken(before, intent, acted)
        &&& acted.culled(culled)
        &&& after == World {
            run_state: if acted.player_is_dead() {
                RunState::GameOver
            } else {
                before.run_state.successor(intent)
            },
            ..culled
        }
    }

    /// Whether `after` is `before` after one tick in which the player's
    /// intent was `intent`.
    pub open spec fn ticked(before: World, intent: Option<Direction>, after: World) -> bool {
        exists|acted: World, culled: World| #[trigger]
            State::tick_steps(before, intent, acted, culled, after)
    }

    /// Whether the entity of slot `i` is drawn: it has a position and a
    /// look, and the player sees the tile it stands on.
    pub open spec fn draws(self, i: int) -> bool {
        &&& self.ecs.positions.has(i)
        &&& self.ecs.renderables.has(i)
        &&& self.ecs.map.is_visible(
            self.ecs.positions@[i].x as int,
            self.ecs.positions@[i].y as int,
        )
    }

    /// The sprites of the entities in the slots below `n` that are drawn, in
    /// the order of their slots.
    pub open spec fn sprites_below(self, n: int) -> Seq<Sprite>
        decreases n,
    {
        if n <= 0 {
            Seq::empty()
        } else if self.draws(n - 1) {
            self.sprites_below(n - 1).push(
                Sprite {
                    x: self.ecs.positions@[n - 1].x,
                    y: self.ecs.positions@[n - 1].y,
                    renderable: self.ecs.renderables@[n - 1],
                },
            )
        } else {
            self.sprites_below(n - 1)
        }
    }

    /// Runs the systems over the store, each once: visibility, adversary
    /// decisions, spatial indexing, damage resolution. Then maintains the
    /// store, which reaps the entities destroyed before. The adversaries
    /// decide before the indices of the map are rebuilt, so what they could
    /// learn from those is the state of the tick before.
    pub fn run_systems(&mut self)
        requires
            old(self).ecs.wf(),
        ensures
            final(self).ecs.wf(),
            State::pipeline_ran(old(self).ecs, final(self).ecs),
    {
        let mut vis = VisibilitySystem {};
        vis.run(&mut self.ecs);
        let ghost w1 = self.ecs;
        let mut mob = MonsterAI {};
        mob.run(&mut self.ecs);
        let ghost w2 = self.ecs;
        let mut mapindex = MapIndexingSystem {};
        mapindex.run(&mut self.ecs);
        let ghost w3 = self.ecs;
        let mut damage = DamageSystem {};
        damage.run(&mut self.ecs);
        let ghost w4 = self.ecs;
        self.ecs.maintain();
        assert(State::pipeline_steps(old(self).ecs, w1, w2, w3, w4, self.ecs));
    }

    /// Advances the game by one tick. The state of the turn machine is read
    /// once, at the start. Depending on it the systems run, or the player's
    /// intent is taken, or nothing happens. Then, whatever the state, every
    /// entity whose `hp` is zero or below is destroyed. The new state is
    /// written once, at the end: `GameOver` if the player was among the
    /// dead, and otherwise the state that the table gives.
    pub fn tick(&mut self, intent: Option<Direction>)
        requires
            old(self).ecs.wf(),
        ensures
            final(self).ecs.wf(),
            State::ticked(old(self).ecs, intent, final(self).ecs),
            final(self).ecs.run_state == RunState::GameOver || final(self).ecs.run_state == old(
                self,
            ).ecs.run_state.successor(intent),
            final(self).ecs.map.visible_within_revealed(),
    {
        let mut newrunstate = self.ecs.run_state;
        match newrunstate {
            RunState::Pre => {
                self.run_systems();
                newrunstate = RunState::Waiting;
            },
            RunState::Waiting => {
                newrunstate = player_input(&mut self.ecs, intent);
            },
            RunState::Player => {
                self.run_systems();
                newrunstate = RunState::Monster;
            },
            RunState::Monster => {
                self.run_systems();
                newrunstate = RunState::Waiting;
            },
            RunState::GameOver => {},
        }
        let ghost acted = self.ecs;
        let player_died = delete_the_dead(&mut self.ecs);
        let ghost culled = self.ecs;
        if player_died {
            newrunstate = RunState::GameOver;
        }
        self.ecs.run_state = newrunstate;
        assert(State::tick_steps(old(self).ecs, intent, acted, culled, self.ecs));
    }

    /// What the renderer has to draw after a tick: the entities that stand
    /// on a tile the player sees, in the order of their slots.
    pub fn sprites(&self) -> (list: Vec<Sprite>)
        requires
            self.ecs.wf(),
        ensures
            list@ == self.sprites_below(self.ecs.entities.slot_count()),
    {
        let mut list: Vec<Sprite> = Vec::new();
        let n = self.ecs.entities.len();
        let mut i: usize = 0;
        while i < n
            invariant
                0 <= i <= n,
                self.ecs.wf(),
                n == self.ecs.entities.slot_count(),
                list@ == self.sprites_below(i as int),
            decreases n - i,
        {
            if self.ecs.positions.contains(i) && self.ecs.renderables.contains(i) {
                let pos = *self.ecs.positions.get(i).unwrap();
                let idx = self.ecs.map.xy_idx(pos.x, pos.y);
                if self.ecs.map.visible_tiles[idx] {
                    list.push(
                        Sprite { x: pos.x, y: pos.y, renderable: *self.ecs.renderables.get(i).unwrap() },
                    );
                }
            }
            i += 1;
        }
        list
    }
}

} // verus!
