//! Damage resolution, and the removal of the dead.

use crate::components::CombatStats;
use crate::store::SlotState;
use crate::world::World;
use vstd::prelude::*;

verus! {

/// The sum of a list of damage amounts.
pub open spec fn total(amounts: Seq<i32>) -> int
    decreases amounts.len(),
{
    if amounts.len() == 0 {
        0
    } else {
        total(amounts.drop_last()) + amounts.last()
    }
}

/// `v`, or the nearest value that fits 32 signed bits.
pub open spec fn clamped(v: int) -> int {
    if v < i32::MIN {
        i32::MIN as int
    } else if v > i32::MAX {
        i32::MAX as int
    } else {
        v
    }
}

/// The statistics `stats` after the damage `amounts` was taken from `hp`.
/// There is no floor at zero: `hp` goes negative when the damage exceeds it.
pub open spec fn wounded(stats: CombatStats, amounts: Seq<i32>) -> CombatStats {
    CombatStats { hp: clamped(stats.hp - total(amounts)) as i32, ..stats }
}

/// The sum of a list in two parts is the sum of the sums of the parts.
pub proof fn lemma_total_append(a: Seq<i32>, b: Seq<i32>)
    ensures
        total(a + b) == total(a) + total(b),
    decreases b.len(),
{
    if b.len() == 0 {
        assert(a + b =~= a);
    } else {
        lemma_total_append(a, b.drop_last());
        assert((a + b).drop_last() =~= a + b.drop_last());
    }
}

/// The sum does not depend on which part of the damage came first.
pub proof fn lemma_total_commutes(a: Seq<i32>, b: Seq<i32>)
    ensures
        total(a + b) == total(b + a),
{
    lemma_total_append(a, b);
    lemma_total_append(b, a);
}

/// Adds up the damage amounts.
pub fn sum_damage(amounts: &Vec<i32>) -> (sum: i128)
    ensures
        sum == total(amounts@),
        -0x8000_0000 * usize::MAX <= sum <= 0x8000_0000 * usize::MAX,
{
    let mut sum: i128 = 0;
    let mut i: usize = 0;
    while i < amounts.len()
        invariant
            0 <= i <= amounts@.len(),
            sum == total(amounts@.take(i as int)),
            -(i as int) * 0x8000_0000 <= sum <= (i as int) * 0x8000_0000,
        decreases amounts@.len() - i,
    {
        proof {
            assert(amounts@.take(i as int + 1).drop_last() =~= amounts@.take(i as int));
        }
        sum = sum + amounts[i] as i128;
        i += 1;
    }
    proof {
        assert(amounts@.take(amounts@.len() as int) =~= amounts@);
    }
    sum
}

/// Takes the damage `amounts` from the `hp` of `stats`.
pub fn apply_damage(stats: CombatStats, amounts: &Vec<i32>) -> (after: CombatStats)
    ensures
        after == wounded(stats, amounts@),
{
    let left: i128 = stats.hp as i128 - sum_damage(amounts);
    let hp: i32 = if left < i32::MIN as i128 {
        i32::MIN
    } else if left > i32::MAX as i128 {
        i32::MAX
    } else {
        left as i32
    };
    CombatStats { max_hp: stats.max_hp, hp, defense: stats.defense, power: stats.power }
}

/// The system that resolves pending damage.
pub struct DamageSystem {}

impl DamageSystem {
    /// What one run does to the store: every entity that has both statistics
    /// and pending damage loses the sum of the damage from its `hp`, and its
    /// pending damage is removed altogether. Nothing else changes.
    pub open spec fn ran(before: World, after: World) -> bool {
        &&& after.same_frame(before)
        &&& after.positions == before.positions
        &&& after.renderables == before.renderables
        &&& after.players == before.players
        &&& after.viewsheds == before.viewsheds
        &&& after.monsters == before.monsters
        &&& after.names == before.names
        &&& after.blockers == before.blockers
        &&& after.wants_to_melee == before.wants_to_melee
        &&& after.combat_stats@.dom() == before.combat_stats@.dom()
        &&& forall|i: int| #[trigger]
            before.combat_stats.has(i) ==> after.combat_stats@[i] == if before.suffer_damage.has(i) {
                wounded(before.combat_stats@[i], before.suffer_damage@[i].amount@)
            } else {
                before.combat_stats@[i]
            }
        &&& after.suffer_damage@ == before.suffer_damage@.remove_keys(before.combat_stats@.dom())
    }

    /// Resolves the pending damage of every entity that has statistics.
    pub fn run(&mut self, world: &mut World)
        requires
            old(world).wf(),
        ensures
            final(world).wf(),
            DamageSystem::ran(*old(world), *final(world)),
    {
        let n = world.combat_stats.len();
        let mut i: usize = 0;
        while i < n
            invariant
                0 <= i <= n,
                forall|j: int| old(world).combat_stats.has(j) ==> 0 <= j < n,
                old(world).wf(),
                world.same_frame(*old(world)),
                world.positions == old(world).positions,
                world.renderables == old(world).renderables,
                world.players == old(world).players,
                world.viewsheds == old(world).viewsheds,
                world.monsters == old(world).monsters,
                world.names == old(world).names,
                world.blockers == old(world).blockers,
                world.wants_to_melee == old(world).wants_to_melee,
                world.combat_stats@.dom() == old(world).combat_stats@.dom(),
                forall|j: int| #[trigger]
                    old(world).combat_stats.has(j) ==> world.combat_stats@[j] == if j < i && old(
                        world,
                    ).suffer_damage.has(j) {
                        wounded(old(world).combat_stats@[j], old(world).suffer_damage@[j].amount@)
                    } else {
                        old(world).combat_stats@[j]
                    },
                world.suffer_damage@ == old(world).suffer_damage@.remove_keys(
                    old(world).combat_stats@.dom().filter(|j: int| j < i),
                ),
            decreases n - i,
        {
            if world.combat_stats.contains(i) {
                match world.suffer_damage.take(i) {
                    Some(damage) => {
                        let stats = *world.combat_stats.get(i).unwrap();
                        let after = apply_damage(stats, &damage.amount);
                        world.combat_stats.insert(i, after);
                        assert(world.combat_stats@.dom() =~= old(world).combat_stats@.dom());
                    },
                    None => {},
                }
            }
            assert(world.suffer_damage@ =~= old(world).suffer_damage@.remove_keys(
                old(world).combat_stats@.dom().filter(|j: int| j < i + 1),
            ));
            i += 1;
        }
        assert(old(world).combat_stats@.dom().filter(|j: int| j < n) =~= old(world).combat_stats@.dom());
    }
}

impl World {
    /// Whether slot `i` holds a live entity whose `hp` has dropped to zero or
    /// below.
    pub open spec fn is_dead_slot(self, i: int) -> bool {
        &&& 0 <= i < self.entities.states@.len()
        &&& self.entities.states@[i] == SlotState::Live
        &&& self.combat_stats.has(i)
        &&& self.combat_stats@[i].hp <= 0
    }

    /// What the removal of the dead does to the store: every live entity
    /// whose `hp` is zero or below is marked for removal. Its components stay
    /// until the store is next maintained. Nothing else changes.
    pub open spec fn culled(self, after: World) -> bool {
        &&& after.same_components(self)
        &&& after.same_resources(self)
        &&& after.entities.generations@ == self.entities.generations@
        &&& after.entities.states@.len() == self.entities.states@.len()
        &&& forall|i: int|
            0 <= i < self.entities.states@.len() ==> #[trigger] after.entities.states@[i]
                == if self.is_dead_slot(i) {
                SlotState::Doomed
            } else {
                self.entities.states@[i]
            }
    }

    /// Whether the entity marked as the player is among the dead.
    pub open spec fn player_is_dead(self) -> bool {
        exists|i: int| #[trigger] self.is_dead_slot(i) && self.players.has(i)
    }
}

/// Destroys every live entity whose `hp` is zero or below, and reports
/// whether the player was one of them.
pub fn delete_the_dead(world: &mut World) -> (player_died: bool)
    requires
        old(world).wf(),
    ensures
        final(world).wf(),
        old(world).culled(*final(world)),
        player_died == old(world).player_is_dead(),
{
    let mut player_died = false;
    let n = world.entities.len();
    let mut i: usize = 0;
    while i < n
        invariant
            0 <= i <= n,
            n == old(world).entities.states@.len(),
            old(world).wf(),
            world.wf(),
            world.same_components(*old(world)),
            world.same_resources(*old(world)),
            world.entities.generations@ == old(world).entities.generations@,
            world.entities.states@.len() == old(world).entities.states@.len(),
            forall|j: int|
                0 <= j < n ==> #[trigger] world.entities.states@[j] == if j < i && old(
                    world,
                ).is_dead_slot(j) {
                    SlotState::Doomed
                } else {
                    old(world).entities.states@[j]
                },
            player_died == exists|j: int|
                j < i && #[trigger] old(world).is_dead_slot(j) && old(world).players.has(j),
        decreases n - i,
    {
        let ghost died_before = player_died;
        if let Some(e) = world.entities.entity_at(i) {
            if world.entities.is_alive(e) {
                let dead = match world.combat_stats.get(i) {
                    Some(stats) => stats.hp <= 0,
                    None => false,
                };
                if dead {
                    world.destroy(e);
                    if world.players.contains(i) {
                        player_died = true;
                    }
                }
            }
        }
        proof {
            if player_died {
                if died_before {
                    let j = choose|j: int|
                        j < i && #[trigger] old(world).is_dead_slot(j) && old(world).players.has(j);
                    assert(j < i + 1 && old(world).is_dead_slot(j) && old(world).players.has(j));
                } else {
                    assert(old(world).is_dead_slot(i as int) && old(world).players.has(i as int));
                }
            } else {
                assert forall|j: int| j < i + 1 implies !(#[trigger] old(world).is_dead_slot(j) && old(
                    world,
                ).players.has(j)) by {
                    if j < i {
                    } else {
                    }
                }
            }
        }
        i += 1;
    }
    player_died
}

} // verus!
