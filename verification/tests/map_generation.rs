use rltk::RandomNumberGenerator;
use rogee::{Rect, TileMap, TileType, MAX_ROOMS, MAX_SIZE, MIN_SIZE};

fn floor_count(map: &TileMap) -> usize {
    map.tiles.iter().filter(|t| **t == TileType::Floor).count()
}

fn is_floor(map: &TileMap, x: i32, y: i32) -> bool {
    map.in_bounds(x, y) && map.tiles[map.xy_idx(x, y)] == TileType::Floor
}

fn reachable_from(map: &TileMap, start: (i32, i32)) -> Vec<bool> {
    let mut seen = vec![false; map.tiles.len()];
    let mut frontier = Vec::new();
    if is_floor(map, start.0, start.1) {
        seen[map.xy_idx(start.0, start.1)] = true;
        frontier.push(start);
    }
    while let Some((x, y)) = frontier.pop() {
        for (dx, dy) in [(1, 0), (-1, 0), (0, 1), (0, -1)] {
            let (nx, ny) = (x + dx, y + dy);
            if is_floor(map, nx, ny) {
                let idx = map.xy_idx(nx, ny);
                if !seen[idx] {
                    seen[idx] = true;
                    frontier.push((nx, ny));
                }
            }
        }
    }
    seen
}

#[test]
fn new_map_is_solid_wall() {
    let map = TileMap::new(20, 10);
    assert_eq!(map.width, 20);
    assert_eq!(map.height, 10);
    assert_eq!(map.tiles.len(), 200);
    assert!(map.tiles.iter().all(|t| *t == TileType::Wall));
    assert!(map.rooms.is_empty());
    assert_eq!(map.revealed_tiles, vec![false; 200]);
    assert_eq!(map.visible_tiles, vec![false; 200]);
    assert_eq!(map.blocked, vec![false; 200]);
    assert_eq!(map.tile_content.len(), 200);
    assert!(map.tile_content.iter().all(|c| c.is_empty()));
}

#[test]
fn apply_room_carves_what_the_room_covers() {
    let mut map = TileMap::new(20, 10);
    let room = Rect::new(2, 3, 4, 2);
    map.apply_room_to_map(&room);
    for y in 0..10 {
        for x in 0..20 {
            let inside = 2 < x && x <= 6 && 3 < y && y <= 5;
            assert_eq!(is_floor(&map, x, y), inside, "tile {} {}", x, y);
        }
    }
    assert_eq!(floor_count(&map), 8);
    assert!(map.rooms.is_empty());
}

#[test]
fn apply_room_is_clamped_to_the_map() {
    let mut map = TileMap::new(6, 5);
    map.apply_room_to_map(&Rect { x1: -3, x2: 1, y1: 3, y2: 40 });
    for y in 0..5 {
        for x in 0..6 {
            assert_eq!(is_floor(&map, x, y), x <= 1 && y == 4, "tile {} {}", x, y);
        }
    }
    let mut other = TileMap::new(6, 5);
    other.apply_room_to_map(&Rect { x1: 5, x2: 9, y1: 0, y2: 3 });
    assert_eq!(floor_count(&other), 0);
}

#[test]
fn horizontal_tunnel_runs_either_way() {
    let mut a = TileMap::new(20, 10);
    a.apply_horizontal_tunnel(3, 7, 4);
    let mut b = TileMap::new(20, 10);
    b.apply_horizontal_tunnel(7, 3, 4);
    assert_eq!(a.tiles, b.tiles);
    for y in 0..10 {
        for x in 0..20 {
            assert_eq!(is_floor(&a, x, y), y == 4 && 3 <= x && x <= 7);
        }
    }
}

#[test]
fn vertical_tunnel_runs_either_way() {
    let mut a = TileMap::new(20, 10);
    a.apply_vertical_tunnel(2, 6, 11);
    let mut b = TileMap::new(20, 10);
    b.apply_vertical_tunnel(6, 2, 11);
    assert_eq!(a.tiles, b.tiles);
    for y in 0..10 {
        for x in 0..20 {
            assert_eq!(is_floor(&a, x, y), x == 11 && 2 <= y && y <= 6);
        }
    }
}

#[test]
fn tunnels_are_clamped_to_the_map() {
    let mut map = TileMap::new(8, 6);
    map.apply_horizontal_tunnel(-5, 100, 2);
    assert_eq!(floor_count(&map), 8);
    map.apply_horizontal_tunnel(0, 7, 6);
    map.apply_horizontal_tunnel(0, 7, -1);
    map.apply_horizontal_tunnel(8, 30, 3);
    assert_eq!(floor_count(&map), 8);
    map.apply_vertical_tunnel(i32::MIN, i32::MAX, 0);
    assert_eq!(floor_count(&map), 8 + 5);
    map.apply_vertical_tunnel(0, 5, 8);
    map.apply_vertical_tunnel(0, 5, -1);
    assert_eq!(floor_count(&map), 13);
    assert!(is_floor(&map, 0, 0));
    assert!(is_floor(&map, 0, 5));
}

#[test]
fn accepts_room_wants_fit_and_distance() {
    let mut map = TileMap::new(40, 30);
    assert!(map.accepts_room(&Rect::new(0, 0, 6, 6)));
    assert!(map.accepts_room(&Rect::new(33, 23, 6, 6)));
    assert!(!map.accepts_room(&Rect::new(34, 0, 6, 6)));
    assert!(!map.accepts_room(&Rect::new(0, 24, 6, 6)));
    assert!(!map.accepts_room(&Rect::new(-1, 0, 6, 6)));
    assert!(!map.accepts_room(&Rect::new(0, -1, 6, 6)));
    assert!(!map.accepts_room(&Rect::new(3, 3, 1, 6)));
    assert!(!map.accepts_room(&Rect::new(3, 3, 6, 1)));
    assert!(map.accepts_room(&Rect::new(3, 3, 2, 2)));
    assert!(map.place_room(Rect::new(10, 10, 6, 6), true));
    assert!(!map.accepts_room(&Rect::new(16, 16, 6, 6)));
    assert!(!map.accepts_room(&Rect::new(4, 4, 6, 6)));
    assert!(map.accepts_room(&Rect::new(17, 10, 6, 6)));
    assert!(map.accepts_room(&Rect::new(3, 10, 6, 6)));
}

#[test]
fn place_room_leaves_a_rejected_map_alone() {
    let mut map = TileMap::new(40, 30);
    assert!(map.place_room(Rect::new(10, 10, 6, 6), true));
    let tiles = map.tiles.clone();
    assert!(!map.place_room(Rect::new(12, 12, 6, 6), true));
    assert!(!map.place_room(Rect::new(36, 2, 6, 6), false));
    assert_eq!(map.tiles, tiles);
    assert_eq!(map.rooms, vec![Rect::new(10, 10, 6, 6)]);
}

#[test]
fn first_room_gets_no_corridor() {
    let mut map = TileMap::new(40, 30);
    assert!(map.place_room(Rect::new(2, 2, 6, 7), false));
    assert_eq!(floor_count(&map), 6 * 7);
    assert_eq!(map.rooms.len(), 1);
}

#[test]
fn second_room_is_joined_horizontal_first() {
    let mut map = TileMap::new(40, 30);
    let a = Rect::new(2, 2, 6, 6);
    let b = Rect::new(20, 15, 6, 6);
    assert!(map.place_room(a, true));
    assert!(map.place_room(b, true));
    assert_eq!(a.center(), (5, 5));
    assert_eq!(b.center(), (23, 18));
    for y in 0..30 {
        for x in 0..40 {
            let in_a = 2 < x && x <= 8 && 2 < y && y <= 8;
            let in_b = 20 < x && x <= 26 && 15 < y && y <= 21;
            let on_row = y == 5 && 5 <= x && x <= 23;
            let on_column = x == 23 && 5 <= y && y <= 18;
            assert_eq!(is_floor(&map, x, y), in_a || in_b || on_row || on_column, "tile {} {}", x, y);
        }
    }
    assert_eq!(map.rooms, vec![a, b]);
}

#[test]
fn second_room_is_joined_vertical_first() {
    let mut map = TileMap::new(40, 30);
    let a = Rect::new(20, 15, 6, 6);
    let b = Rect::new(2, 2, 6, 6);
    assert!(map.place_room(a, false));
    assert!(map.place_room(b, false));
    for y in 0..30 {
        for x in 0..40 {
            let in_a = 20 < x && x <= 26 && 15 < y && y <= 21;
            let in_b = 2 < x && x <= 8 && 2 < y && y <= 8;
            let on_column = x == 23 && 5 <= y && y <= 18;
            let on_row = y == 5 && 5 <= x && x <= 23;
            assert_eq!(is_floor(&map, x, y), in_a || in_b || on_row || on_column, "tile {} {}", x, y);
        }
    }
}

#[test]
fn generated_rooms_do_not_overlap() {
    for seed in 0..40u64 {
        let mut rng = RandomNumberGenerator::seeded(seed);
        let map = TileMap::new_map_rooms_and_corridors(80, 50, &mut rng);
        for i in 0..map.rooms.len() {
            for j in (i + 1)..map.rooms.len() {
                assert!(!map.rooms[i].intersect(&map.rooms[j]), "seed {} rooms {} {}", seed, i, j);
            }
        }
    }
}

#[test]
fn generated_room_centers_are_reachable_from_the_first() {
    for seed in 0..40u64 {
        let mut rng = RandomNumberGenerator::seeded(seed);
        let map = TileMap::new_map_rooms_and_corridors(80, 50, &mut rng);
        let seen = reachable_from(&map, map.rooms[0].center());
        for room in map.rooms.iter() {
            let (x, y) = room.center();
            assert!(is_floor(&map, x, y));
            assert!(seen[map.xy_idx(x, y)], "seed {}", seed);
        }
    }
}

#[test]
fn generated_rooms_are_dug_and_sized() {
    for seed in 100..120u64 {
        let mut rng = RandomNumberGenerator::seeded(seed);
        let map = TileMap::new_map_rooms_and_corridors(80, 50, &mut rng);
        assert!(!map.rooms.is_empty());
        assert!(map.rooms.len() <= MAX_ROOMS as usize);
        for room in map.rooms.iter() {
            assert!(MIN_SIZE <= room.x2 - room.x1 && room.x2 - room.x1 < MAX_SIZE);
            assert!(MIN_SIZE <= room.y2 - room.y1 && room.y2 - room.y1 < MAX_SIZE);
            assert!(0 <= room.x1 && room.x2 < 80 && 0 <= room.y1 && room.y2 < 50);
            for y in (room.y1 + 1)..=room.y2 {
                for x in (room.x1 + 1)..=room.x2 {
                    assert!(is_floor(&map, x, y));
                }
            }
        }
        assert!(map.visible_tiles.iter().all(|v| !*v));
        assert!(map.revealed_tiles.iter().all(|v| !*v));
        assert!(map.is_valid());
    }
}

#[test]
fn the_border_of_a_generated_map_is_wall() {
    for seed in 200..230u64 {
        let mut rng = RandomNumberGenerator::seeded(seed);
        let map = TileMap::new_map_rooms_and_corridors(80, 50, &mut rng);
        for x in 0..80 {
            assert!(!is_floor(&map, x, 0) && !is_floor(&map, x, 49));
        }
        for y in 0..50 {
            assert!(!is_floor(&map, 0, y) && !is_floor(&map, 79, y));
        }
        for room in map.rooms.iter() {
            assert!(room.x2 <= 78 && room.y2 <= 48);
        }
    }
}

#[test]
fn every_floor_tile_belongs_to_a_room_or_a_corridor() {
    for seed in 300..320u64 {
        let mut rng = RandomNumberGenerator::seeded(seed);
        let map = TileMap::new_map_rooms_and_corridors(80, 50, &mut rng);
        for y in 0..50 {
            for x in 0..80 {
                if !is_floor(&map, x, y) {
                    continue;
                }
                let mut planned = false;
                for (i, room) in map.rooms.iter().enumerate() {
                    if room.x1 < x && x <= room.x2 && room.y1 < y && y <= room.y2 {
                        planned = true;
                    }
                    if i > 0 {
                        let (px, py) = map.rooms[i - 1].center();
                        let (cx, cy) = room.center();
                        let between_x = (px.min(cx)..=px.max(cx)).contains(&x);
                        let between_y = (py.min(cy)..=py.max(cy)).contains(&y);
                        if (y == py && between_x) || (x == cx && between_y) {
                            planned = true;
                        }
                        if (x == px && between_y) || (y == cy && between_x) {
                            planned = true;
                        }
                    }
                }
                assert!(planned, "seed {} tile {} {}", seed, x, y);
            }
        }
    }
}

#[test]
fn generation_works_on_the_smallest_map() {
    let mut rng = RandomNumberGenerator::seeded(7);
    let map = TileMap::new_map_rooms_and_corridors(11, 11, &mut rng);
    assert_eq!(map.tiles.len(), 121);
    assert!(!map.rooms.is_empty());
    let seen = reachable_from(&map, map.rooms[0].center());
    for room in map.rooms.iter() {
        let (x, y) = room.center();
        assert!(seen[map.xy_idx(x, y)]);
    }
}

#[test]
fn generation_differs_with_the_seed() {
    let mut a = RandomNumberGenerator::seeded(1);
    let mut b = RandomNumberGenerator::seeded(2);
    let mut c = RandomNumberGenerator::seeded(1);
    let map_a = TileMap::new_map_rooms_and_corridors(80, 50, &mut a);
    let map_b = TileMap::new_map_rooms_and_corridors(80, 50, &mut b);
    let map_c = TileMap::new_map_rooms_and_corridors(80, 50, &mut c);
    assert_eq!(map_a.tiles, map_c.tiles);
    assert_eq!(map_a.rooms, map_c.rooms);
    assert_ne!(map_a.rooms, map_b.rooms);
}

#[test]
fn generated_rooms_come_in_all_sizes() {
    let mut widths = [false; 16];
    let mut heights = [false; 16];
    let mut columns = std::collections::BTreeSet::new();
    for seed in 400..440u64 {
        let mut rng = RandomNumberGenerator::seeded(seed);
        let map = TileMap::new_map_rooms_and_corridors(80, 50, &mut rng);
        for room in map.rooms.iter() {
            widths[(room.x2 - room.x1) as usize] = true;
            heights[(room.y2 - room.y1) as usize] = true;
            columns.insert(room.x1);
        }
    }
    for size in 0..16 {
        let expected = (MIN_SIZE as usize) <= size && size < (MAX_SIZE as usize);
        assert_eq!(widths[size], expected);
        assert_eq!(heights[size], expected);
    }
    assert!(columns.len() > 20);
    assert!(columns.contains(&0));
}

#[test]
fn a_map_is_valid_when_its_arrays_fit_and_what_is_visible_is_revealed() {
    let mut map = TileMap::new(6, 4);
    assert!(map.is_valid());
    map.revealed_tiles[5] = true;
    assert!(map.is_valid());
    map.visible_tiles[5] = true;
    assert!(map.is_valid());
    map.visible_tiles[6] = true;
    assert!(!map.is_valid());
    map.revealed_tiles[6] = true;
    assert!(map.is_valid());
    map.blocked.pop();
    assert!(!map.is_valid());
    map.blocked.push(true);
    assert!(map.is_valid());
    map.width = 0;
    assert!(!map.is_valid());
    map.width = 4;
    map.height = 6;
    assert!(map.is_valid());
    map.height = 7;
    assert!(!map.is_valid());
}
