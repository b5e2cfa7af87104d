use rogee::{
    CombatStats, Entities, Entity, EntityBuilder, Name, Position, RunState, SlotState, Storage,
    SufferDamage, TileMap, Viewshed, World, MAX_VIEW_RANGE,
};

fn stats(hp: i32) -> CombatStats {
    CombatStats { max_hp: 16, hp, defense: 1, power: 4 }
}

#[test]
fn new_world_is_empty() {
    let world = World::new(TileMap::new(10, 10));
    assert_eq!(world.entities.len(), 0);
    assert_eq!(world.run_state, RunState::Pre);
    assert_eq!(world.player, None);
    assert!(world.alerted.is_empty());
    assert!(!world.positions.contains(0));
    assert!(!world.is_alive(Entity { index: 0, generation: 0 }));
}

#[test]
fn create_hands_out_fresh_entities() {
    let mut world = World::new(TileMap::new(10, 10));
    let a = world.create(EntityBuilder::new()).unwrap();
    let b = world.create(EntityBuilder::new()).unwrap();
    let c = world.create(EntityBuilder::new()).unwrap();
    assert_eq!(a, Entity { index: 0, generation: 0 });
    assert_eq!(b, Entity { index: 1, generation: 0 });
    assert_eq!(c, Entity { index: 2, generation: 0 });
    assert!(world.is_alive(a) && world.is_alive(b) && world.is_alive(c));
    assert_eq!(world.entities.len(), 3);
}

#[test]
fn create_attaches_all_components_at_once() {
    let mut world = World::new(TileMap::new(10, 10));
    let e = world
        .create(
            EntityBuilder::new()
                .with_position(Position { x: 3, y: 4 })
                .with_combat_stats(stats(16))
                .with_name(Name { name: "Rat".to_string() })
                .with_monster()
                .with_blocks_tile()
                .with_viewshed(Viewshed::new(6)),
        )
        .unwrap();
    assert_eq!(world.positions.get(e.index), Some(&Position { x: 3, y: 4 }));
    assert_eq!(world.combat_stats.get(e.index), Some(&stats(16)));
    assert_eq!(world.names.get(e.index).unwrap().name, "Rat");
    assert!(world.monsters.contains(e.index));
    assert!(world.blockers.contains(e.index));
    let viewshed = world.viewsheds.get(e.index).unwrap();
    assert_eq!(viewshed.range, 6);
    assert!(viewshed.dirty);
    assert!(viewshed.visible_tiles.is_empty());
    assert!(!world.players.contains(e.index));
    assert!(!world.renderables.contains(e.index));
    assert!(!world.suffer_damage.contains(e.index));
    assert!(!world.wants_to_melee.contains(e.index));
}

#[test]
fn create_rejects_a_position_off_the_map() {
    let mut world = World::new(TileMap::new(10, 10));
    assert!(world.create(EntityBuilder::new().with_position(Position { x: 10, y: 0 })).is_none());
    assert!(world.create(EntityBuilder::new().with_position(Position { x: 0, y: -1 })).is_none());
    assert_eq!(world.entities.len(), 0);
    assert!(world.create(EntityBuilder::new().with_position(Position { x: 9, y: 9 })).is_some());
}

#[test]
fn create_rejects_a_sight_range_out_of_bounds() {
    let mut world = World::new(TileMap::new(10, 10));
    assert!(world.create(EntityBuilder::new().with_viewshed(Viewshed::new(0))).is_none());
    assert!(world.create(EntityBuilder::new().with_viewshed(Viewshed::new(-8))).is_none());
    assert!(world
        .create(EntityBuilder::new().with_viewshed(Viewshed::new(MAX_VIEW_RANGE + 1)))
        .is_none());
    assert!(world.create(EntityBuilder::new().with_viewshed(Viewshed::new(1))).is_some());
    assert!(world.create(EntityBuilder::new().with_viewshed(Viewshed::new(MAX_VIEW_RANGE))).is_some());
}

#[test]
fn create_rejects_a_second_player() {
    let mut world = World::new(TileMap::new(10, 10));
    assert!(world.create(EntityBuilder::new().with_player()).is_some());
    assert!(world.create(EntityBuilder::new().with_player()).is_none());
    assert_eq!(world.entities.len(), 1);
}

#[test]
fn destroy_is_deferred_until_maintain() {
    let mut world = World::new(TileMap::new(10, 10));
    let e = world
        .create(EntityBuilder::new().with_position(Position { x: 1, y: 1 }).with_combat_stats(stats(5)))
        .unwrap();
    let other = world.create(EntityBuilder::new().with_position(Position { x: 2, y: 2 })).unwrap();
    assert!(world.destroy(e));
    assert!(!world.is_alive(e));
    assert_eq!(world.entities.states[e.index], SlotState::Doomed);
    assert!(world.positions.contains(e.index));
    assert!(world.combat_stats.contains(e.index));
    assert!(!world.destroy(e));
    world.maintain();
    assert_eq!(world.entities.states[e.index], SlotState::Vacant);
    assert!(!world.positions.contains(e.index));
    assert!(!world.combat_stats.contains(e.index));
    assert!(!world.is_alive(e));
    assert!(world.is_alive(other));
    assert_eq!(world.positions.get(other.index), Some(&Position { x: 2, y: 2 }));
}

#[test]
fn maintain_without_destruction_changes_nothing() {
    let mut world = World::new(TileMap::new(10, 10));
    let e = world.create(EntityBuilder::new().with_position(Position { x: 1, y: 1 })).unwrap();
    world.maintain();
    assert!(world.is_alive(e));
    assert_eq!(world.positions.get(e.index), Some(&Position { x: 1, y: 1 }));
}

#[test]
fn a_reaped_slot_is_issued_again_with_a_new_generation() {
    let mut world = World::new(TileMap::new(10, 10));
    let a = world.create(EntityBuilder::new().with_combat_stats(stats(1))).unwrap();
    let b = world.create(EntityBuilder::new()).unwrap();
    assert!(world.destroy(a));
    world.maintain();
    let c = world.create(EntityBuilder::new().with_position(Position { x: 4, y: 4 })).unwrap();
    assert_eq!(c, Entity { index: a.index, generation: a.generation + 1 });
    assert!(world.is_alive(c));
    assert!(!world.is_alive(a));
    assert!(world.is_alive(b));
    assert!(!world.combat_stats.contains(c.index));
    assert_eq!(world.positions.get(c.index), Some(&Position { x: 4, y: 4 }));
    assert_eq!(world.entities.len(), 2);
}

#[test]
fn a_doomed_slot_is_not_issued_before_it_is_reaped() {
    let mut world = World::new(TileMap::new(10, 10));
    let a = world.create(EntityBuilder::new()).unwrap();
    assert!(world.destroy(a));
    let b = world.create(EntityBuilder::new()).unwrap();
    assert_eq!(b, Entity { index: 1, generation: 0 });
}

#[test]
fn a_stale_handle_finds_nothing() {
    let mut world = World::new(TileMap::new(10, 10));
    let a = world.create(EntityBuilder::new().with_combat_stats(stats(7))).unwrap();
    assert_eq!(world.combat_stats.get_for(&world.entities, a), Some(&stats(7)));
    assert!(world.destroy(a));
    assert_eq!(world.combat_stats.get_for(&world.entities, a), None);
    world.maintain();
    let b = world.create(EntityBuilder::new().with_combat_stats(stats(9))).unwrap();
    assert_eq!(b.index, a.index);
    assert_eq!(world.combat_stats.get_for(&world.entities, a), None);
    assert_eq!(world.combat_stats.get_for(&world.entities, b), Some(&stats(9)));
    let never = Entity { index: 40, generation: 0 };
    assert_eq!(world.combat_stats.get_for(&world.entities, never), None);
    assert!(!world.destroy(never));
    assert!(!world.destroy(a));
    assert!(world.is_alive(b));
}

#[test]
fn a_slot_whose_generation_is_spent_is_retired() {
    let mut entities = Entities::new();
    let a = entities.create();
    entities.generations[a.index] = u32::MAX;
    assert!(entities.destroy(Entity { index: 0, generation: u32::MAX }));
    entities.reap(0);
    let b = entities.create();
    assert_eq!(b, Entity { index: 1, generation: 0 });
}

#[test]
fn entity_at_names_what_a_slot_holds() {
    let mut entities = Entities::new();
    let a = entities.create();
    assert_eq!(entities.entity_at(0), Some(a));
    assert_eq!(entities.entity_at(1), None);
    assert!(!entities.is_doomed_slot(0));
    entities.destroy(a);
    assert!(entities.is_doomed_slot(0));
    assert_eq!(entities.entity_at(0), Some(a));
    entities.reap(0);
    assert_eq!(entities.entity_at(0), None);
    assert!(!entities.is_doomed_slot(0));
    assert!(!entities.is_doomed_slot(9));
}

#[test]
fn storage_keeps_what_is_put_in() {
    let mut storage: Storage<i32> = Storage::new();
    assert_eq!(storage.len(), 0);
    assert_eq!(storage.get(3), None);
    storage.insert(3, 30);
    assert_eq!(storage.len(), 4);
    assert_eq!(storage.get(3), Some(&30));
    assert!(storage.contains(3));
    assert!(!storage.contains(2));
    storage.insert(3, 31);
    assert_eq!(storage.get(3), Some(&31));
    storage.attach(1, None);
    assert!(!storage.contains(1));
    storage.attach(1, Some(10));
    assert_eq!(storage.get(1), Some(&10));
    assert_eq!(storage.take(1), Some(10));
    assert_eq!(storage.take(1), None);
    assert_eq!(storage.take(99), None);
    assert!(storage.remove(3));
    assert!(!storage.remove(3));
    assert!(!storage.remove(99));
    assert_eq!(storage.get(3), None);
}

#[test]
fn new_damage_queues_in_order() {
    let mut world = World::new(TileMap::new(10, 10));
    let e = world.create(EntityBuilder::new().with_combat_stats(stats(16))).unwrap();
    assert!(SufferDamage::new_damage(&mut world.suffer_damage, &world.entities, e, 4));
    assert_eq!(world.suffer_damage.get(e.index).unwrap().amount, vec![4]);
    assert!(SufferDamage::new_damage(&mut world.suffer_damage, &world.entities, e, 3));
    assert_eq!(world.suffer_damage.get(e.index).unwrap().amount, vec![4, 3]);
    let stale = Entity { index: e.index, generation: e.generation + 1 };
    assert!(!SufferDamage::new_damage(&mut world.suffer_damage, &world.entities, stale, 9));
    assert_eq!(world.suffer_damage.get(e.index).unwrap().amount, vec![4, 3]);
}

#[test]
fn the_store_stays_valid_through_its_operations() {
    let mut world = World::new(TileMap::new(10, 10));
    assert!(world.is_valid());
    let a = world
        .create(
            EntityBuilder::new()
                .with_position(Position { x: 1, y: 1 })
                .with_viewshed(Viewshed::new(4))
                .with_player(),
        )
        .unwrap();
    let b = world.create(EntityBuilder::new().with_position(Position { x: 9, y: 9 })).unwrap();
    assert!(world.is_valid());
    world.destroy(a);
    assert!(world.is_valid());
    world.maintain();
    assert!(world.is_valid());
    world.destroy(b);
    world.create(EntityBuilder::new().with_player()).unwrap();
    world.maintain();
    assert!(world.is_valid());
}

#[test]
fn a_store_put_out_of_order_is_not_valid() {
    let fresh = || {
        let mut world = World::new(TileMap::new(10, 10));
        world.create(EntityBuilder::new().with_position(Position { x: 1, y: 1 })).unwrap();
        world
    };
    let mut world = fresh();
    world.positions.insert(0, Position { x: 10, y: 1 });
    assert!(!world.is_valid());
    let mut world = fresh();
    world.positions.insert(0, Position { x: 1, y: -1 });
    assert!(!world.is_valid());
    let mut world = fresh();
    world.combat_stats.insert(1, stats(3));
    assert!(!world.is_valid());
    let mut world = fresh();
    world.viewsheds.insert(0, Viewshed::new(0));
    assert!(!world.is_valid());
    let mut world = fresh();
    world.create(EntityBuilder::new()).unwrap();
    world.players.attach(0, Some(rogee::Player {}));
    assert!(world.is_valid());
    world.players.attach(1, Some(rogee::Player {}));
    assert!(!world.is_valid());
    let mut world = fresh();
    world.entities.generations.push(0);
    assert!(!world.is_valid());
    let mut world = fresh();
    world.map.visible_tiles[3] = true;
    assert!(!world.is_valid());
    let mut world = fresh();
    world.entities.states[0] = SlotState::Vacant;
    assert!(!world.is_valid());
}
