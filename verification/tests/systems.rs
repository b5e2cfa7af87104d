use rogee::{
    apply_damage, delete_the_dead, player_input, sees, sum_damage, try_move_player, CombatStats,
    Coord, DamageSystem, Direction, Entity, EntityBuilder, MapIndexingSystem, MonsterAI, Position,
    Rect, RunState, SlotState, SufferDamage, TileMap, TileType, Viewshed, VisibilitySystem,
    WantsToMelee, World,
};

fn stats(hp: i32) -> CombatStats {
    CombatStats { max_hp: 16, hp, defense: 1, power: 4 }
}

fn arena() -> TileMap {
    let mut map = TileMap::new(20, 12);
    assert!(map.place_room(Rect::new(1, 1, 16, 9), true));
    map
}

fn walker(x: i32, y: i32) -> EntityBuilder {
    EntityBuilder::new().with_position(Position { x, y }).with_viewshed(Viewshed::new(8))
}

#[test]
fn damage_is_summed_and_the_request_removed() {
    let mut world = World::new(TileMap::new(10, 10));
    let e = world
        .create(
            EntityBuilder::new()
                .with_combat_stats(stats(16))
                .with_suffer_damage(SufferDamage { amount: vec![4, 3] }),
        )
        .unwrap();
    DamageSystem {}.run(&mut world);
    assert_eq!(world.combat_stats.get(e.index), Some(&stats(9)));
    assert!(!world.suffer_damage.contains(e.index));
    assert!(world.is_alive(e));
    DamageSystem {}.run(&mut world);
    assert_eq!(world.combat_stats.get(e.index), Some(&stats(9)));
}

#[test]
fn lethal_damage_goes_negative_and_the_dead_are_removed() {
    let mut world = World::new(TileMap::new(10, 10));
    let e = world
        .create(
            EntityBuilder::new()
                .with_position(Position { x: 2, y: 2 })
                .with_combat_stats(stats(16))
                .with_suffer_damage(SufferDamage { amount: vec![20] }),
        )
        .unwrap();
    DamageSystem {}.run(&mut world);
    assert_eq!(world.combat_stats.get(e.index).unwrap().hp, -4);
    assert!(!world.suffer_damage.contains(e.index));
    world.maintain();
    assert!(world.is_alive(e));
    assert!(!delete_the_dead(&mut world));
    assert!(!world.is_alive(e));
    assert_eq!(world.combat_stats.get_for(&world.entities, e), None);
    world.maintain();
    assert!(!world.is_alive(e));
    assert!(!world.combat_stats.contains(e.index));
    assert!(!world.positions.contains(e.index));
    assert_eq!(world.entities.states[e.index], SlotState::Vacant);
}

#[test]
fn the_dead_are_those_at_zero_or_below() {
    let mut world = World::new(TileMap::new(10, 10));
    let zero = world.create(EntityBuilder::new().with_combat_stats(stats(0))).unwrap();
    let one = world.create(EntityBuilder::new().with_combat_stats(stats(1))).unwrap();
    let below = world.create(EntityBuilder::new().with_combat_stats(stats(-3))).unwrap();
    let bare = world.create(EntityBuilder::new()).unwrap();
    assert!(!delete_the_dead(&mut world));
    assert!(!world.is_alive(zero));
    assert!(world.is_alive(one));
    assert!(!world.is_alive(below));
    assert!(world.is_alive(bare));
    assert!(world.combat_stats.contains(zero.index));
}

#[test]
fn the_death_of_the_player_is_reported() {
    let mut world = World::new(TileMap::new(10, 10));
    let player = world.create(EntityBuilder::new().with_player().with_combat_stats(stats(0))).unwrap();
    world.create(EntityBuilder::new().with_combat_stats(stats(3))).unwrap();
    assert!(delete_the_dead(&mut world));
    assert!(!world.is_alive(player));
    assert!(!delete_the_dead(&mut world));
}

#[test]
fn damage_without_statistics_keeps_waiting() {
    let mut world = World::new(TileMap::new(10, 10));
    let ghost = world
        .create(EntityBuilder::new().with_suffer_damage(SufferDamage { amount: vec![5] }))
        .unwrap();
    let hurt = world
        .create(
            EntityBuilder::new()
                .with_combat_stats(stats(10))
                .with_suffer_damage(SufferDamage { amount: vec![1, 1, 1] }),
        )
        .unwrap();
    let fine = world.create(EntityBuilder::new().with_combat_stats(stats(10))).unwrap();
    DamageSystem {}.run(&mut world);
    assert_eq!(world.suffer_damage.get(ghost.index).unwrap().amount, vec![5]);
    assert_eq!(world.combat_stats.get(hurt.index), Some(&stats(7)));
    assert!(!world.suffer_damage.contains(hurt.index));
    assert_eq!(world.combat_stats.get(fine.index), Some(&stats(10)));
}

#[test]
fn damage_sum_does_not_depend_on_the_order() {
    assert_eq!(sum_damage(&vec![]), 0);
    assert_eq!(sum_damage(&vec![4, 3]), 7);
    assert_eq!(sum_damage(&vec![3, 4]), 7);
    assert_eq!(sum_damage(&vec![-2, 10, 1]), 9);
    assert_eq!(sum_damage(&vec![i32::MAX, i32::MAX, i32::MAX]), 3 * (i32::MAX as i128));
    assert_eq!(apply_damage(stats(16), &vec![1, 2, 3]), apply_damage(stats(16), &vec![3, 1, 2]));
}

#[test]
fn hp_stops_at_the_ends_of_its_range() {
    assert_eq!(apply_damage(stats(10), &vec![i32::MAX, i32::MAX, 100]).hp, i32::MIN);
    assert_eq!(apply_damage(stats(10), &vec![i32::MIN, i32::MIN]).hp, i32::MAX);
    assert_eq!(apply_damage(stats(0), &vec![i32::MAX]).hp, -i32::MAX);
    assert_eq!(apply_damage(stats(-1), &vec![i32::MAX]).hp, i32::MIN);
    assert_eq!(apply_damage(stats(-2), &vec![i32::MAX]).hp, i32::MIN);
    let after = apply_damage(CombatStats { max_hp: 30, hp: 30, defense: 2, power: 5 }, &vec![31]);
    assert_eq!(after, CombatStats { max_hp: 30, hp: -1, defense: 2, power: 5 });
}

#[test]
fn a_dirty_viewshed_is_computed_and_marked_clean() {
    let mut world = World::new(arena());
    let e = world.create(walker(5, 5)).unwrap();
    VisibilitySystem {}.run(&mut world);
    let viewshed = world.viewsheds.get(e.index).unwrap();
    assert!(!viewshed.dirty);
    assert_eq!(viewshed.range, 8);
    assert!(viewshed.visible_tiles.contains(&Coord { x: 5, y: 5 }));
    assert!(viewshed.visible_tiles.contains(&Coord { x: 6, y: 5 }));
    assert!(viewshed.visible_tiles.contains(&Coord { x: 5, y: 2 }));
    for tile in viewshed.visible_tiles.iter() {
        assert!(world.map.in_bounds(tile.x, tile.y));
    }
    let mut sorted: Vec<(i32, i32)> = viewshed.visible_tiles.iter().map(|t| (t.x, t.y)).collect();
    sorted.sort();
    let before = sorted.len();
    sorted.dedup();
    assert_eq!(sorted.len(), before);
}

#[test]
fn walls_block_the_view() {
    let mut map = TileMap::new(30, 12);
    assert!(map.place_room(Rect::new(1, 1, 8, 8), true));
    assert!(map.place_room(Rect::new(15, 1, 8, 8), true));
    let corridor_y = Rect::new(1, 1, 8, 8).center().1;
    let mut world = World::new(map);
    let e = world.create(walker(3, 3)).unwrap();
    VisibilitySystem {}.run(&mut world);
    let seen = &world.viewsheds.get(e.index).unwrap().visible_tiles;
    assert!(seen.contains(&Coord { x: 3, y: 3 }));
    assert!(seen.contains(&Coord { x: 9, y: 3 }));
    assert_eq!(world.map.tiles[world.map.xy_idx(10, 3)], TileType::Wall);
    assert!(seen.contains(&Coord { x: 10, y: 3 }));
    assert!(!seen.contains(&Coord { x: 11, y: 3 }));
    assert!(!seen.contains(&Coord { x: 16, y: 3 }));
    assert!(corridor_y != 3);
}

#[test]
fn the_view_of_a_seer_in_the_open_is_everything_near() {
    let mut map = TileMap::new(9, 9);
    map.apply_room_to_map(&Rect { x1: -1, x2: 8, y1: -1, y2: 8 });
    let mut world = World::new(map);
    let e = world
        .create(EntityBuilder::new().with_position(Position { x: 4, y: 4 }).with_viewshed(Viewshed::new(2)))
        .unwrap();
    VisibilitySystem {}.run(&mut world);
    let seen = &world.viewsheds.get(e.index).unwrap().visible_tiles;
    for (dx, dy) in [(0, 0), (1, 0), (-1, 0), (0, 1), (0, -1), (1, 1), (-1, -1), (2, 0), (0, -2)] {
        assert!(seen.contains(&Coord { x: 4 + dx, y: 4 + dy }), "{} {}", dx, dy);
    }
    assert!(!seen.contains(&Coord { x: 8, y: 4 }));
    assert!(!seen.contains(&Coord { x: 4, y: 0 }));
}

#[test]
fn a_clean_viewshed_is_not_recomputed() {
    let mut world = World::new(arena());
    let stale = Viewshed { visible_tiles: vec![Coord { x: 1, y: 1 }], range: 8, dirty: false };
    let e = world
        .create(EntityBuilder::new().with_position(Position { x: 5, y: 5 }).with_viewshed(stale).with_player())
        .unwrap();
    VisibilitySystem {}.run(&mut world);
    VisibilitySystem {}.run(&mut world);
    let viewshed = world.viewsheds.get(e.index).unwrap();
    assert_eq!(viewshed.visible_tiles, vec![Coord { x: 1, y: 1 }]);
    assert!(!viewshed.dirty);
    assert!(world.map.visible_tiles.iter().all(|v| !*v));
    assert!(world.map.revealed_tiles.iter().all(|v| !*v));
}

#[test]
fn a_computed_viewshed_stays_as_it_is_on_the_next_run() {
    let mut world = World::new(arena());
    let e = world.create(walker(5, 5).with_player()).unwrap();
    VisibilitySystem {}.run(&mut world);
    let first = world.viewsheds.get(e.index).unwrap().visible_tiles.clone();
    let visible = world.map.visible_tiles.clone();
    VisibilitySystem {}.run(&mut world);
    assert_eq!(world.viewsheds.get(e.index).unwrap().visible_tiles, first);
    assert_eq!(world.map.visible_tiles, visible);
}

#[test]
fn a_viewshed_without_position_is_left_dirty() {
    let mut world = World::new(arena());
    let e = world.create(EntityBuilder::new().with_viewshed(Viewshed::new(8))).unwrap();
    VisibilitySystem {}.run(&mut world);
    let viewshed = world.viewsheds.get(e.index).unwrap();
    assert!(viewshed.dirty);
    assert!(viewshed.visible_tiles.is_empty());
}

#[test]
fn the_player_reveals_what_it_sees() {
    let mut world = World::new(arena());
    let e = world.create(walker(5, 5).with_player()).unwrap();
    VisibilitySystem {}.run(&mut world);
    let seen = world.viewsheds.get(e.index).unwrap().visible_tiles.clone();
    for y in 0..12 {
        for x in 0..20 {
            let idx = world.map.xy_idx(x, y);
            let in_view = seen.contains(&Coord { x, y });
            assert_eq!(world.map.visible_tiles[idx], in_view);
            assert_eq!(world.map.revealed_tiles[idx], in_view);
        }
    }
}

#[test]
fn what_was_revealed_stays_revealed() {
    let mut map = TileMap::new(40, 12);
    assert!(map.place_room(Rect::new(1, 1, 30, 9), true));
    let mut world = World::new(map);
    let e = world
        .create(
            EntityBuilder::new()
                .with_position(Position { x: 4, y: 5 })
                .with_viewshed(Viewshed::new(3))
                .with_player(),
        )
        .unwrap();
    VisibilitySystem {}.run(&mut world);
    let first = world.map.visible_tiles.clone();
    world.positions.insert(e.index, Position { x: 25, y: 5 });
    world.viewsheds.insert(e.index, Viewshed { visible_tiles: Vec::new(), range: 3, dirty: true });
    VisibilitySystem {}.run(&mut world);
    let second = world.map.visible_tiles.clone();
    assert!(first[world.map.xy_idx(4, 5)]);
    assert!(!second[world.map.xy_idx(4, 5)]);
    assert!(second[world.map.xy_idx(25, 5)]);
    for idx in 0..first.len() {
        assert_eq!(world.map.revealed_tiles[idx], first[idx] || second[idx]);
        assert!(!world.map.visible_tiles[idx] || world.map.revealed_tiles[idx]);
    }
}

#[test]
fn an_adversary_does_not_reveal_the_map() {
    let mut world = World::new(arena());
    let e = world.create(walker(5, 5).with_monster()).unwrap();
    VisibilitySystem {}.run(&mut world);
    assert!(!world.viewsheds.get(e.index).unwrap().visible_tiles.is_empty());
    assert!(world.map.visible_tiles.iter().all(|v| !*v));
    assert!(world.map.revealed_tiles.iter().all(|v| !*v));
}

#[test]
fn indexing_blocks_walls_and_blockers() {
    let mut world = World::new(arena());
    let blocker = world
        .create(EntityBuilder::new().with_position(Position { x: 3, y: 3 }).with_blocks_tile())
        .unwrap();
    let walker = world.create(EntityBuilder::new().with_position(Position { x: 4, y: 3 })).unwrap();
    let second = world.create(EntityBuilder::new().with_position(Position { x: 4, y: 3 })).unwrap();
    world.create(EntityBuilder::new().with_blocks_tile()).unwrap();
    MapIndexingSystem {}.run(&mut world);
    for y in 0..12 {
        for x in 0..20 {
            let idx = world.map.xy_idx(x, y);
            let wall = world.map.tiles[idx] == TileType::Wall;
            assert_eq!(world.map.blocked[idx], wall || (x, y) == (3, 3), "tile {} {}", x, y);
            let expected: Vec<Entity> = if (x, y) == (3, 3) {
                vec![blocker]
            } else if (x, y) == (4, 3) {
                vec![walker, second]
            } else {
                vec![]
            };
            assert_eq!(world.map.tile_content[idx], expected);
        }
    }
}

#[test]
fn indexing_starts_afresh_on_every_run() {
    let mut world = World::new(arena());
    let e = world
        .create(EntityBuilder::new().with_position(Position { x: 3, y: 3 }).with_blocks_tile())
        .unwrap();
    MapIndexingSystem {}.run(&mut world);
    world.positions.insert(e.index, Position { x: 7, y: 7 });
    MapIndexingSystem {}.run(&mut world);
    let old = world.map.xy_idx(3, 3);
    let new = world.map.xy_idx(7, 7);
    assert!(!world.map.blocked[old]);
    assert!(world.map.tile_content[old].is_empty());
    assert!(world.map.blocked[new]);
    assert_eq!(world.map.tile_content[new], vec![e]);
}

#[test]
fn adversaries_that_see_the_player_are_alerted() {
    let mut world = World::new(arena());
    world.player_pos = Coord { x: 5, y: 5 };
    let sees_it = Viewshed { visible_tiles: vec![Coord { x: 4, y: 5 }, Coord { x: 5, y: 5 }], range: 8, dirty: false };
    let misses_it = Viewshed { visible_tiles: vec![Coord { x: 4, y: 5 }], range: 8, dirty: false };
    let idle = world
        .create(EntityBuilder::new().with_monster().with_viewshed(misses_it.clone()))
        .unwrap();
    let keen = world.create(EntityBuilder::new().with_monster().with_viewshed(sees_it.clone())).unwrap();
    let bystander = world.create(EntityBuilder::new().with_viewshed(sees_it.clone())).unwrap();
    let blind = world.create(EntityBuilder::new().with_monster()).unwrap();
    let sharp = world.create(EntityBuilder::new().with_monster().with_viewshed(sees_it)).unwrap();
    MonsterAI {}.run(&mut world);
    assert_eq!(world.alerted, vec![keen, sharp]);
    assert!(!world.alerted.contains(&idle));
    assert!(!world.alerted.contains(&bystander));
    assert!(!world.alerted.contains(&blind));
    world.player_pos = Coord { x: 9, y: 9 };
    MonsterAI {}.run(&mut world);
    assert!(world.alerted.is_empty());
}

#[test]
fn sees_finds_a_tile_in_the_list() {
    let tiles = vec![Coord { x: 1, y: 2 }, Coord { x: 3, y: 4 }];
    assert!(sees(&tiles, Coord { x: 3, y: 4 }));
    assert!(!sees(&tiles, Coord { x: 4, y: 3 }));
    assert!(!sees(&Vec::new(), Coord { x: 0, y: 0 }));
}

fn world_with_player(x: i32, y: i32) -> (World, Entity) {
    let mut world = World::new(arena());
    let clean = Viewshed { visible_tiles: vec![Coord { x, y }], range: 8, dirty: false };
    let player = world
        .create(
            EntityBuilder::new()
                .with_position(Position { x, y })
                .with_viewshed(clean)
                .with_player()
                .with_combat_stats(CombatStats { max_hp: 30, hp: 30, defense: 2, power: 5 }),
        )
        .unwrap();
    world.player = Some(player);
    world.player_pos = Coord { x, y };
    (world, player)
}

#[test]
fn the_player_steps_onto_a_free_tile() {
    let (mut world, player) = world_with_player(5, 5);
    MapIndexingSystem {}.run(&mut world);
    try_move_player(1, 0, &mut world);
    assert_eq!(world.positions.get(player.index), Some(&Position { x: 6, y: 5 }));
    assert_eq!(world.player_pos, Coord { x: 6, y: 5 });
    let viewshed = world.viewsheds.get(player.index).unwrap();
    assert!(viewshed.dirty);
    assert_eq!(viewshed.range, 8);
    assert_eq!(viewshed.visible_tiles, vec![Coord { x: 5, y: 5 }]);
    assert!(!world.wants_to_melee.contains(player.index));
}

#[test]
fn the_player_does_not_step_into_a_wall() {
    let (mut world, player) = world_with_player(2, 2);
    MapIndexingSystem {}.run(&mut world);
    try_move_player(-1, 0, &mut world);
    assert_eq!(world.positions.get(player.index), Some(&Position { x: 2, y: 2 }));
    assert_eq!(world.player_pos, Coord { x: 2, y: 2 });
    assert!(!world.viewsheds.get(player.index).unwrap().dirty);
}

#[test]
fn the_player_does_not_step_off_the_map() {
    let mut map = TileMap::new(5, 5);
    map.apply_room_to_map(&Rect { x1: -1, x2: 4, y1: -1, y2: 4 });
    let mut world = World::new(map);
    let player = world.create(walker(0, 4).with_player()).unwrap();
    MapIndexingSystem {}.run(&mut world);
    try_move_player(-1, 0, &mut world);
    try_move_player(0, 1, &mut world);
    try_move_player(i32::MIN, i32::MAX, &mut world);
    assert_eq!(world.positions.get(player.index), Some(&Position { x: 0, y: 4 }));
    try_move_player(4, -4, &mut world);
    assert_eq!(world.positions.get(player.index), Some(&Position { x: 4, y: 0 }));
}

#[test]
fn the_player_attacks_what_stands_in_the_way() {
    let (mut world, player) = world_with_player(5, 5);
    let dummy = world.create(EntityBuilder::new().with_position(Position { x: 6, y: 5 })).unwrap();
    let orc = world
        .create(
            EntityBuilder::new()
                .with_position(Position { x: 6, y: 5 })
                .with_combat_stats(stats(16))
                .with_blocks_tile()
                .with_monster(),
        )
        .unwrap();
    let goblin = world
        .create(EntityBuilder::new().with_position(Position { x: 6, y: 5 }).with_combat_stats(stats(16)))
        .unwrap();
    MapIndexingSystem {}.run(&mut world);
    try_move_player(1, 0, &mut world);
    assert_eq!(world.wants_to_melee.get(player.index), Some(&WantsToMelee { target: orc }));
    assert_eq!(world.positions.get(player.index), Some(&Position { x: 5, y: 5 }));
    assert!(!world.viewsheds.get(player.index).unwrap().dirty);
    assert!(world.is_alive(dummy) && world.is_alive(goblin));
}

#[test]
fn a_blocker_without_statistics_just_blocks() {
    let (mut world, player) = world_with_player(5, 5);
    world
        .create(EntityBuilder::new().with_position(Position { x: 5, y: 6 }).with_blocks_tile())
        .unwrap();
    MapIndexingSystem {}.run(&mut world);
    try_move_player(0, 1, &mut world);
    assert_eq!(world.positions.get(player.index), Some(&Position { x: 5, y: 5 }));
    assert!(!world.wants_to_melee.contains(player.index));
}

#[test]
fn a_destroyed_entity_is_not_attacked() {
    let (mut world, player) = world_with_player(5, 5);
    let orc = world
        .create(
            EntityBuilder::new()
                .with_position(Position { x: 6, y: 5 })
                .with_combat_stats(stats(0))
                .with_blocks_tile(),
        )
        .unwrap();
    MapIndexingSystem {}.run(&mut world);
    assert!(!delete_the_dead(&mut world));
    assert!(!world.is_alive(orc));
    try_move_player(1, 0, &mut world);
    assert!(!world.wants_to_melee.contains(player.index));
    assert_eq!(world.positions.get(player.index), Some(&Position { x: 5, y: 5 }));
}

#[test]
fn without_a_player_nothing_moves() {
    let mut world = World::new(arena());
    let e = world.create(walker(5, 5)).unwrap();
    MapIndexingSystem {}.run(&mut world);
    try_move_player(1, 0, &mut world);
    assert_eq!(world.positions.get(e.index), Some(&Position { x: 5, y: 5 }));
}

#[test]
fn player_input_says_which_state_follows() {
    let (mut world, player) = world_with_player(5, 5);
    MapIndexingSystem {}.run(&mut world);
    assert_eq!(player_input(&mut world, None), RunState::Waiting);
    assert_eq!(world.positions.get(player.index), Some(&Position { x: 5, y: 5 }));
    assert_eq!(player_input(&mut world, Some(Direction::SouthEast)), RunState::Player);
    assert_eq!(world.positions.get(player.index), Some(&Position { x: 6, y: 6 }));
    assert_eq!(player_input(&mut world, Some(Direction::North)), RunState::Player);
    assert_eq!(world.positions.get(player.index), Some(&Position { x: 6, y: 5 }));
}

#[test]
fn directions_step_by_one() {
    assert_eq!(Direction::North.delta(), (0, -1));
    assert_eq!(Direction::NorthEast.delta(), (1, -1));
    assert_eq!(Direction::East.delta(), (1, 0));
    assert_eq!(Direction::SouthEast.delta(), (1, 1));
    assert_eq!(Direction::South.delta(), (0, 1));
    assert_eq!(Direction::SouthWest.delta(), (-1, 1));
    assert_eq!(Direction::West.delta(), (-1, 0));
    assert_eq!(Direction::NorthWest.delta(), (-1, -1));
}
