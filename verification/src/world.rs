//! The entity-component store: the entity allocator, one storage for each
//! component kind, and the resources that all systems share.

use crate::components::{
    BlocksTile, CombatStats, Coord, Monster, Name, Player, Position, Renderable, SufferDamage,
    Viewshed, WantsToMelee,
};
use crate::map::TileMap;
use crate::state::RunState;
use crate::store::{Entities, Entity, SlotState, Storage};
use vstd::prelude::*;

verus! {

/// Whether every slot that has a component of `storage` holds an entity.
pub open spec fn anchored<T>(storage: Storage<T>, entities: Entities) -> bool {
    forall|i: int| #[trigger] storage.has(i) ==> entities.occupied(i)
}

/// The mapping `m` after `value`, if there is one, was attached to slot `i`.
pub open spec fn attached<T>(m: Map<int, T>, i: int, value: Option<T>) -> Map<int, T> {
    match value {
        Some(v) => m.insert(i, v),
        None => m,
    }
}

/// The slots below `n` whose entity waits to be reaped.
pub open spec fn doomed_below(entities: Entities, n: int) -> Set<int> {
    Set::new(
        |i: int|
            0 <= i < n && i < entities.states@.len() && entities.states@[i] == SlotState::Doomed,
    )
}

/// True when every slot that has a component of `storage` holds an entity.
pub fn is_anchored<T>(storage: &Storage<T>, entities: &Entities) -> (ok: bool)
    requires
        entities.wf(),
    ensures
        ok == anchored(*storage, *entities),
{
    let n = storage.len();
    let mut i: usize = 0;
    while i < n
        invariant
            0 <= i <= n,
            entities.wf(),
            forall|j: int| storage.has(j) ==> 0 <= j < n,
            forall|j: int| j < i && #[trigger] storage.has(j) ==> entities.occupied(j),
        decreases n - i,
    {
        if storage.contains(i) && entities.entity_at(i).is_none() {
            return false;
        }
        i += 1;
    }
    true
}

/// The components that a new entity starts with.
pub struct EntityBuilder {
    pub position: Option<Position>,
    pub renderable: Option<Renderable>,
    pub player: Option<Player>,
    pub viewshed: Option<Viewshed>,
    pub monster: Option<Monster>,
    pub name: Option<Name>,
    pub blocks_tile: Option<BlocksTile>,
    pub combat_stats: Option<CombatStats>,
    pub wants_to_melee: Option<WantsToMelee>,
    pub suffer_damage: Option<SufferDamage>,
}

impl EntityBuilder {
    /// A builder without components.
    pub fn new() -> (b: EntityBuilder)
        ensures
            b.position is None,
            b.renderable is None,
            b.player is None,
            b.viewshed is None,
            b.monster is None,
            b.name is None,
            b.blocks_tile is None,
            b.combat_stats is None,
            b.wants_to_melee is None,
            b.suffer_damage is None,
    {
        EntityBuilder {
            position: None,
            renderable: None,
            player: None,
            viewshed: None,
            monster: None,
            name: None,
            blocks_tile: None,
            combat_stats: None,
            wants_to_melee: None,
            suffer_damage: None,
        }
    }

    /// The same builder with the position `value`.
    pub fn with_position(self, value: Position) -> (b: EntityBuilder)
        ensures
            b == (EntityBuilder { position: Some(value), ..self }),
    {
        EntityBuilder { position: Some(value), ..self }
    }

    /// The same builder with the look `value`.
    pub fn with_renderable(self, value: Renderable) -> (b: EntityBuilder)
        ensures
            b == (EntityBuilder { renderable: Some(value), ..self }),
    {
        EntityBuilder { renderable: Some(value), ..self }
    }

    /// The same builder, marked as the player.
    pub fn with_player(self) -> (b: EntityBuilder)
        ensures
            b == (EntityBuilder { player: Some(Player {}), ..self }),
    {
        EntityBuilder { player: Some(Player {}), ..self }
    }

    /// The same builder with the viewshed `value`.
    pub fn with_viewshed(self, value: Viewshed) -> (b: EntityBuilder)
        ensures
            b == (EntityBuilder { viewshed: Some(value), ..self }),
    {
        EntityBuilder { viewshed: Some(value), ..self }
    }

    /// The same builder, marked as an adversary.
    pub fn with_monster(self) -> (b: EntityBuilder)
        ensures
            b == (EntityBuilder { monster: Some(Monster {}), ..self }),
    {
        EntityBuilder { monster: Some(Monster {}), ..self }
    }

    /// The same builder with the name `value`.
    pub fn with_name(self, value: Name) -> (b: EntityBuilder)
        ensures
            b == (EntityBuilder { name: Some(value), ..self }),
    {
        EntityBuilder { name: Some(value), ..self }
    }

    /// The same builder, marked as blocking its tile.
    pub fn with_blocks_tile(self) -> (b: EntityBuilder)
        ensures
            b == (EntityBuilder { blocks_tile: Some(BlocksTile {}), ..self }),
    {
        EntityBuilder { blocks_tile: Some(BlocksTile {}), ..self }
    }

    /// The same builder with the statistics `value`.
    pub fn with_combat_stats(self, value: CombatStats) -> (b: EntityBuilder)
        ensures
            b == (EntityBuilder { combat_stats: Some(value), ..self }),
    {
        EntityBuilder { combat_stats: Some(value), ..self }
    }

    /// The same builder with the request to attack `value`.
    pub fn with_wants_to_melee(self, value: WantsToMelee) -> (b: EntityBuilder)
        ensures
            b == (EntityBuilder { wants_to_melee: Some(value), ..self }),
    {
        EntityBuilder { wants_to_melee: Some(value), ..self }
    }

    /// The same builder with the pending damage `value`.
    pub fn with_suffer_damage(self, value: SufferDamage) -> (b: EntityBuilder)
        ensures
            b == (EntityBuilder { suffer_damage: Some(value), ..self }),
    {
        EntityBuilder { suffer_damage: Some(value), ..self }
    }
}

/// The store. Every component kind has its storage from the start, so a kind
/// is always registered before it is used.
pub struct World {
    pub entities: Entities,
    pub positions: Storage<Position>,
    pub renderables: Storage<Renderable>,
    pub players: Storage<Player>,
    pub viewsheds: Storage<Viewshed>,
    pub monsters: Storage<Monster>,
    pub names: Storage<Name>,
    pub blockers: Storage<BlocksTile>,
    pub combat_stats: Storage<CombatStats>,
    pub wants_to_melee: Storage<WantsToMelee>,
    pub suffer_damage: Storage<SufferDamage>,
    /// The map that the entities stand on.
    pub map: TileMap,
    /// The entity that the player controls, once it has been spawned.
    pub player: Option<Entity>,
    /// Where the player was last known to stand.
    pub player_pos: Coord,
    /// The state of the turn machine.
    pub run_state: RunState,
    /// The adversaries that had the player in sight when they last decided.
    pub alerted: Vec<Entity>,
}

impl World {
    /// Only slots that hold an entity have components.
    pub open spec fn components_anchored(self) -> bool {
        &&& anchored(self.positions, self.entities)
        &&& anchored(self.renderables, self.entities)
        &&& anchored(self.players, self.entities)
        &&& anchored(self.viewsheds, self.entities)
        &&& anchored(self.monsters, self.entities)
        &&& anchored(self.names, self.entities)
        &&& anchored(self.blockers, self.entities)
        &&& anchored(self.combat_stats, self.entities)
        &&& anchored(self.wants_to_melee, self.entities)
        &&& anchored(self.suffer_damage, self.entities)
    }

    /// Every position is a tile of the map.
    pub open spec fn positions_on_map(self) -> bool {
        forall|i: int| #[trigger]
            self.positions.has(i) ==> self.map.has_tile(
                self.positions@[i].x as int,
                self.positions@[i].y as int,
            )
    }

    /// Every viewshed has a range that a scan accepts.
    pub open spec fn viewsheds_in_range(self) -> bool {
        forall|i: int| #[trigger] self.viewsheds.has(i) ==> self.viewsheds@[i].wf()
    }

    /// At most one entity is marked as the player.
    pub open spec fn one_player(self) -> bool {
        forall|i: int, j: int| #[trigger]
            self.players.has(i) && #[trigger] self.players.has(j) ==> i == j
    }

    /// The invariant of the store.
    pub open spec fn wf(self) -> bool {
        &&& self.entities.wf()
        &&& self.map.wf()
        &&& self.components_anchored()
        &&& self.positions_on_map()
        &&& self.viewsheds_in_range()
        &&& self.one_player()
    }

    /// Whether `self` and `other` hold the same resources.
    pub open spec fn same_resources(self, other: World) -> bool {
        &&& self.map == other.map
        &&& self.player == other.player
        &&& self.player_pos == other.player_pos
        &&& self.run_state == other.run_state
        &&& self.alerted == other.alerted
    }

    /// Whether `self` and `other` hold the same entities and resources,
    /// whatever their components.
    pub open spec fn same_frame(self, other: World) -> bool {
        self.entities == other.entities && self.same_resources(other)
    }

    /// Whether an entity built from `b` can join the store: its position is
    /// on the map, its sight range is one a scan accepts, and it is not a
    /// second player.
    pub open spec fn admits(self, b: EntityBuilder) -> bool {
        &&& b.position matches Some(p) ==> self.map.has_tile(p.x as int, p.y as int)
        &&& b.viewshed matches Some(v) ==> v.wf()
        &&& b.player is Some ==> forall|i: int| !self.players.has(i)
    }

    /// A store without entities around `map`, at the start of the turn cycle.
    pub fn new(map: TileMap) -> (world: World)
        requires
            map.wf(),
        ensures
            world.wf(),
            world.entities.slot_count() == 0,
            world.map == map,
            world.player is None,
            world.player_pos == (Coord { x: 0, y: 0 }),
            world.run_state == RunState::Pre,
            world.alerted@ == Seq::<Entity>::empty(),
            world.positions@ == Map::<int, Position>::empty(),
            world.renderables@ == Map::<int, Renderable>::empty(),
            world.players@ == Map::<int, Player>::empty(),
            world.viewsheds@ == Map::<int, Viewshed>::empty(),
            world.monsters@ == Map::<int, Monster>::empty(),
            world.names@ == Map::<int, Name>::empty(),
            world.blockers@ == Map::<int, BlocksTile>::empty(),
            world.combat_stats@ == Map::<int, CombatStats>::empty(),
            world.wants_to_melee@ == Map::<int, WantsToMelee>::empty(),
            world.suffer_damage@ == Map::<int, SufferDamage>::empty(),
    {
        World {
            entities: Entities::new(),
            positions: Storage::new(),
            renderables: Storage::new(),
            players: Storage::new(),
            viewsheds: Storage::new(),
            monsters: Storage::new(),
            names: Storage::new(),
            blockers: Storage::new(),
            combat_stats: Storage::new(),
            wants_to_melee: Storage::new(),
            suffer_damage: Storage::new(),
            map,
            player: None,
            player_pos: Coord { x: 0, y: 0 },
            run_state: RunState::Pre,
            alerted: Vec::new(),
        }
    }

    /// True when the store is well formed. Every operation of the store and
    /// every system keeps it so; this is for a store that was put together or
    /// changed by hand.
    pub fn is_valid(&self) -> (ok: bool)
        ensures
            ok == self.wf(),
    {
        if self.entities.generations.len() != self.entities.states.len() {
            return false;
        }
        if !self.map.is_valid() {
            return false;
        }
        if !(is_anchored(&self.positions, &self.entities) && is_anchored(
            &self.renderables,
            &self.entities,
        ) && is_anchored(&self.players, &self.entities) && is_anchored(
            &self.viewsheds,
            &self.entities,
        ) && is_anchored(&self.monsters, &self.entities) && is_anchored(&self.names, &self.entities)
            && is_anchored(&self.blockers, &self.entities) && is_anchored(
            &self.combat_stats,
            &self.entities,
        ) && is_anchored(&self.wants_to_melee, &self.entities) && is_anchored(
            &self.suffer_damage,
            &self.entities,
        )) {
            return false;
        }
        let n = self.positions.len();
        let mut i: usize = 0;
        while i < n
            invariant
                0 <= i <= n,
                forall|j: int| self.positions.has(j) ==> 0 <= j < n,
                forall|j: int|
                    j < i && #[trigger] self.positions.has(j) ==> self.map.has_tile(
                        self.positions@[j].x as int,
                        self.positions@[j].y as int,
                    ),
            decreases n - i,
        {
            if let Some(p) = self.positions.get(i) {
                if !self.map.in_bounds(p.x, p.y) {
                    return false;
                }
            }
            i += 1;
        }
        let n = self.viewsheds.len();
        let mut i: usize = 0;
        while i < n
            invariant
                0 <= i <= n,
                self.positions_on_map(),
                forall|j: int| self.viewsheds.has(j) ==> 0 <= j < n,
                forall|j: int| j < i && #[trigger] self.viewsheds.has(j) ==> self.viewsheds@[j].wf(),
            decreases n - i,
        {
            if let Some(v) = self.viewsheds.get(i) {
                if v.range < 1 || v.range > crate::components::MAX_VIEW_RANGE {
                    return false;
                }
            }
            i += 1;
        }
        let n = self.players.len();
        let mut found: Option<usize> = None;
        let mut i: usize = 0;
        while i < n
            invariant
                0 <= i <= n,
                self.positions_on_map(),
                self.viewsheds_in_range(),
                forall|j: int| self.players.has(j) ==> 0 <= j < n,
                found matches Some(k) ==> k < i && self.players.has(k as int),
                forall|j: int|
                    j < i && #[trigger] self.players.has(j) ==> found == Some(j as usize),
            decreases n - i,
        {
            if self.players.contains(i) {
                if found.is_some() {
                    return false;
                }
                found = Some(i);
            }
            i += 1;
        }
        true
    }

    /// True when an entity built from `b` can join the store.
    pub fn can_admit(&self, b: &EntityBuilder) -> (ok: bool)
        ensures
            ok == self.admits(*b),
    {
        if let Some(p) = &b.position {
            if !self.map.in_bounds(p.x, p.y) {
                return false;
            }
        }
        if let Some(v) = &b.viewshed {
            if v.range < 1 || v.range > crate::components::MAX_VIEW_RANGE {
                return false;
            }
        }
        if b.player.is_some() {
            let n = self.players.len();
            let mut i: usize = 0;
            while i < n
                invariant
                    0 <= i <= n,
                    b.player is Some,
                    forall|j: int| self.players.has(j) ==> 0 <= j < n,
                    forall|j: int| 0 <= j < i ==> !self.players.has(j),
                decreases n - i,
            {
                if self.players.contains(i) {
                    return false;
                }
                i += 1;
            }
        }
        true
    }

    /// Whether `after` is this store after the entity `e` was created from
    /// `b`: the allocator issued `e`, and the slot of `e` got the components
    /// of `b`. Nothing else changes.
    pub open spec fn created(self, e: Entity, b: EntityBuilder, after: World) -> bool {
        &&& self.entities.issued(e, after.entities)
        &&& after.same_resources(self)
        &&& after.positions@ == attached(self.positions@, e.index as int, b.position)
        &&& after.renderables@ == attached(self.renderables@, e.index as int, b.renderable)
        &&& after.players@ == attached(self.players@, e.index as int, b.player)
        &&& after.viewsheds@ == attached(self.viewsheds@, e.index as int, b.viewshed)
        &&& after.monsters@ == attached(self.monsters@, e.index as int, b.monster)
        &&& after.names@ == attached(self.names@, e.index as int, b.name)
        &&& after.blockers@ == attached(self.blockers@, e.index as int, b.blocks_tile)
        &&& after.combat_stats@ == attached(self.combat_stats@, e.index as int, b.combat_stats)
        &&& after.wants_to_melee@ == attached(
            self.wants_to_melee@,
            e.index as int,
            b.wants_to_melee,
        )
        &&& after.suffer_damage@ == attached(self.suffer_damage@, e.index as int, b.suffer_damage)
    }

    /// Creates an entity with the components of `b`, all at once, and hands
    /// out its handle. A builder that the store does not admit creates
    /// nothing.
    pub fn create(&mut self, b: EntityBuilder) -> (r: Option<Entity>)
        requires
            old(self).wf(),
        ensures
            final(self).wf(),
            r is Some == old(self).admits(b),
            r is None ==> *final(self) == *old(self),
            r matches Some(e) ==> old(self).created(e, b, *final(self)) && !old(self).entities.occupied(
                e.index as int,
            ) && final(self).entities.alive(e),
    {
        if !self.can_admit(&b) {
            return None;
        }
        let e = self.entities.create();
        let i = e.index;
        self.positions.attach(i, b.position);
        self.renderables.attach(i, b.renderable);
        self.players.attach(i, b.player);
        self.viewsheds.attach(i, b.viewshed);
        self.monsters.attach(i, b.monster);
        self.names.attach(i, b.name);
        self.blockers.attach(i, b.blocks_tile);
        self.combat_stats.attach(i, b.combat_stats);
        self.wants_to_melee.attach(i, b.wants_to_melee);
        self.suffer_damage.attach(i, b.suffer_damage);
        Some(e)
    }

    /// Marks the live entity `e` for removal and reports whether it did. Its
    /// components stay until the next `maintain`.
    pub fn destroy(&mut self, e: Entity) -> (done: bool)
        requires
            old(self).wf(),
        ensures
            final(self).wf(),
            done == old(self).entities.alive(e),
            done ==> final(self).entities.doomed(e),
            final(self).entities.generations@ == old(self).entities.generations@,
            final(self).entities.states@ == if done {
                old(self).entities.states@.update(e.index as int, SlotState::Doomed)
            } else {
                old(self).entities.states@
            },
            final(self).same_components(*old(self)),
            final(self).same_resources(*old(self)),
    {
        self.entities.destroy(e)
    }

    /// Whether `self` and `other` hold the same components.
    pub open spec fn same_components(self, other: World) -> bool {
        &&& self.positions == other.positions
        &&& self.renderables == other.renderables
        &&& self.players == other.players
        &&& self.viewsheds == other.viewsheds
        &&& self.monsters == other.monsters
        &&& self.names == other.names
        &&& self.blockers == other.blockers
        &&& self.combat_stats == other.combat_stats
        &&& self.wants_to_melee == other.wants_to_melee
        &&& self.suffer_damage == other.suffer_damage
    }

    /// True when `e` is a live entity of the store. An entity that was
    /// destroyed is not, whether it has been reaped or not.
    pub fn is_alive(&self, e: Entity) -> (b: bool)
        requires
            self.wf(),
        ensures
            b == self.entities.alive(e),
    {
        self.entities.is_alive(e)
    }

    /// Whether `after` is this store after it was maintained: every entity
    /// that was destroyed has been reaped, so that its slot is vacant and its
    /// components are gone. Nothing else changes.
    pub open spec fn maintained(self, after: World) -> bool {
        &&& after.same_resources(self)
        &&& after.entities.generations@ == self.entities.generations@
        &&& after.entities.states@.len() == self.entities.states@.len()
        &&& forall|i: int|
            0 <= i < self.entities.states@.len() ==> #[trigger] after.entities.states@[i]
                == if self.entities.states@[i] == SlotState::Doomed {
                SlotState::Vacant
            } else {
                self.entities.states@[i]
            }
        &&& after.positions@ == self.positions@.remove_keys(self.doomed_slots())
        &&& after.renderables@ == self.renderables@.remove_keys(self.doomed_slots())
        &&& after.players@ == self.players@.remove_keys(self.doomed_slots())
        &&& after.viewsheds@ == self.viewsheds@.remove_keys(self.doomed_slots())
        &&& after.monsters@ == self.monsters@.remove_keys(self.doomed_slots())
        &&& after.names@ == self.names@.remove_keys(self.doomed_slots())
        &&& after.blockers@ == self.blockers@.remove_keys(self.doomed_slots())
        &&& after.combat_stats@ == self.combat_stats@.remove_keys(self.doomed_slots())
        &&& after.wants_to_melee@ == self.wants_to_melee@.remove_keys(self.doomed_slots())
        &&& after.suffer_damage@ == self.suffer_damage@.remove_keys(self.doomed_slots())
    }

    /// Reaps every entity that was destroyed. This is the only place where a
    /// destruction takes effect.
    pub fn maintain(&mut self)
        requires
            old(self).wf(),
        ensures
            final(self).wf(),
            old(self).maintained(*final(self)),
    {
        let ghost before = old(self).entities;
        let n = self.entities.len();
        let mut k: usize = 0;
        while k < n
            invariant
                0 <= k <= n,
                n == before.states@.len(),
                before == old(self).entities,
                old(self).wf(),
                self.entities.wf(),
                self.entities.generations@ == before.generations@,
                self.entities.states@.len() == before.states@.len(),
                forall|i: int|
                    0 <= i < n ==> #[trigger] self.entities.states@[i] == if i < k && before.states@[i]
                        == SlotState::Doomed {
                        SlotState::Vacant
                    } else {
                        before.states@[i]
                    },
                self.positions@ == old(self).positions@.remove_keys(doomed_below(before, k as int)),
                self.renderables@ == old(self).renderables@.remove_keys(doomed_below(before, k as int)),
                self.players@ == old(self).players@.remove_keys(doomed_below(before, k as int)),
                self.viewsheds@ == old(self).viewsheds@.remove_keys(doomed_below(before, k as int)),
                self.monsters@ == old(self).monsters@.remove_keys(doomed_below(before, k as int)),
                self.names@ == old(self).names@.remove_keys(doomed_below(before, k as int)),
                self.blockers@ == old(self).blockers@.remove_keys(doomed_below(before, k as int)),
                self.combat_stats@ == old(self).combat_stats@.remove_keys(
                    doomed_below(before, k as int),
                ),
                self.wants_to_melee@ == old(self).wants_to_melee@.remove_keys(
                    doomed_below(before, k as int),
                ),
                self.suffer_damage@ == old(self).suffer_damage@.remove_keys(
                    doomed_below(before, k as int),
                ),
                self.map == old(self).map,
                self.player == old(self).player,
                self.player_pos == old(self).player_pos,
                self.run_state == old(self).run_state,
                self.alerted == old(self).alerted,
            decreases n - k,
        {
            let doomed = self.entities.is_doomed_slot(k);
            if doomed {
                self.positions.remove(k);
                self.renderables.remove(k);
                self.players.remove(k);
                self.viewsheds.remove(k);
                self.monsters.remove(k);
                self.names.remove(k);
                self.blockers.remove(k);
                self.combat_stats.remove(k);
                self.wants_to_melee.remove(k);
                self.suffer_damage.remove(k);
                self.entities.reap(k);
            }
            proof {
                lemma_sweep_step(old(self).positions@, before, k as int);
                lemma_sweep_step(old(self).renderables@, before, k as int);
                lemma_sweep_step(old(self).players@, before, k as int);
                lemma_sweep_step(old(self).viewsheds@, before, k as int);
                lemma_sweep_step(old(self).monsters@, before, k as int);
                lemma_sweep_step(old(self).names@, before, k as int);
                lemma_sweep_step(old(self).blockers@, before, k as int);
                lemma_sweep_step(old(self).combat_stats@, before, k as int);
                lemma_sweep_step(old(self).wants_to_melee@, before, k as int);
                lemma_sweep_step(old(self).suffer_damage@, before, k as int);
            }
            k += 1;
        }
        proof {
            assert(doomed_below(before, n as int) =~= old(self).doomed_slots());
        }
    }

    /// The slots whose entity waits to be reaped.
    pub open spec fn doomed_slots(self) -> Set<int> {
        doomed_below(self.entities, self.entities.states@.len() as int)
    }
}

/// Sweeping slot `k` after the slots below it: its components go if its
/// entity is doomed, and stay otherwise.
pub proof fn lemma_sweep_step<T>(base: Map<int, T>, entities: Entities, k: int)
    requires
        0 <= k < entities.states@.len(),
    ensures
        base.remove_keys(doomed_below(entities, k + 1)) == if entities.states@[k] == SlotState::Doomed {
            base.remove_keys(doomed_below(entities, k)).remove(k)
        } else {
            base.remove_keys(doomed_below(entities, k))
        },
{
    if entities.states@[k] == SlotState::Doomed {
        assert(base.remove_keys(doomed_below(entities, k + 1)) =~= base.remove_keys(
            doomed_below(entities, k),
        ).remove(k));
    } else {
        assert(doomed_below(entities, k + 1) =~= doomed_below(entities, k));
    }
}

} // verus!
