//! Setting up a new game: the map, the player in the first room, and one
//! adversary in each of the other rooms.

use crate::components::{
    BlocksTile, CombatStats, Coord, Monster, Name, Player, Position, Renderable, Rgb, Viewshed,
};
use crate::map::TileMap;
use crate::random::roll_dice;
use crate::rect::{lemma_center_covered, lemma_common_tile_intersects};
use crate::state::{RunState, State};
use crate::store::{Entity, SlotState};
use crate::world::{EntityBuilder, World};
use rltk::RandomNumberGenerator;
use vstd::prelude::*;

verus! {

/// The width of the map of a new game.
pub const MAP_WIDTH: i32 = 80;

/// The height of the map of a new game.
pub const MAP_HEIGHT: i32 = 50;

/// How far the player and the adversaries see.
pub const SIGHT_RANGE: i32 = 8;

/// The code page 437 glyph that `rltk` draws for the character `c`.
pub uninterp spec fn cp437_of(c: char) -> u16;

/// Calls `rltk::to_cp437`, which looks the character up in the table of code
/// page 437 and gives 0 for a character that the table lacks. The glyph
/// depends on the character alone, so it has a name; nothing more is claimed.
#[verifier::external_body]
pub(crate) fn to_cp437(c: char) -> (glyph: u16)
    ensures
        glyph == cp437_of(c),
{
    rltk::to_cp437(c)
}

/// The character of the decimal digit `d`.
pub open spec fn digit_char(d: int) -> char {
    if d == 0 {
        '0'
    } else if d == 1 {
        '1'
    } else if d == 2 {
        '2'
    } else if d == 3 {
        '3'
    } else if d == 4 {
        '4'
    } else if d == 5 {
        '5'
    } else if d == 6 {
        '6'
    } else if d == 7 {
        '7'
    } else if d == 8 {
        '8'
    } else {
        '9'
    }
}

/// `n` written in decimal digits, without leading zeros.
pub open spec fn decimal(n: nat) -> Seq<char>
    decreases n,
{
    if n < 10 {
        seq![digit_char(n as int)]
    } else {
        decimal(n / 10).push(digit_char((n % 10) as int))
    }
}

/// The name of the `n`-th adversary of a kind: the kind, a space, a hash sign
/// and the number.
pub open spec fn numbered(kind: Seq<char>, n: nat) -> Seq<char> {
    kind + seq![' ', '#'] + decimal(n)
}

/// The decimal digit `d` as a string.
fn digit_str(d: usize) -> (s: &'static str)
    requires
        d < 10,
    ensures
        s@ == seq![digit_char(d as int)],
{
    proof {
        reveal_strlit("0");
        reveal_strlit("1");
        reveal_strlit("2");
        reveal_strlit("3");
        reveal_strlit("4");
        reveal_strlit("5");
        reveal_strlit("6");
        reveal_strlit("7");
        reveal_strlit("8");
        reveal_strlit("9");
    }
    let s = if d == 0 {
        "0"
    } else if d == 1 {
        "1"
    } else if d == 2 {
        "2"
    } else if d == 3 {
        "3"
    } else if d == 4 {
        "4"
    } else if d == 5 {
        "5"
    } else if d == 6 {
        "6"
    } else if d == 7 {
        "7"
    } else if d == 8 {
        "8"
    } else {
        "9"
    };
    assert(s@ =~= seq![digit_char(d as int)]);
    s
}

/// Appends `n` in decimal digits to `s`.
fn push_decimal(s: &mut String, n: usize)
    ensures
        final(s)@ == old(s)@ + decimal(n as nat),
    decreases n,
{
    if n >= 10 {
        push_decimal(s, n / 10);
    }
    s.append(digit_str(n % 10));
    proof {
        if n >= 10 {
            assert(s@ =~= old(s)@ + decimal((n / 10) as nat).push(digit_char((n % 10) as int)));
        }
    }
}

/// The name of the `n`-th adversary of kind `kind`, such as `Orc #3`.
pub fn numbered_name(kind: &str, n: usize) -> (name: String)
    ensures
        name@ == numbered(kind@, n as nat),
{
    let mut name = String::from_str(kind);
    name.append(" #");
    proof {
        reveal_strlit(" #");
        assert(" #"@ =~= seq![' ', '#']);
    }
    push_decimal(&mut name, n);
    name
}

/// Whether `v` is the viewshed that a new entity starts with.
pub open spec fn is_fresh_viewshed(v: Viewshed) -> bool {
    v.range == SIGHT_RANGE && v.dirty && v.visible_tiles@ == Seq::<Coord>::empty()
}

/// The statistics that the player starts with.
pub open spec fn player_stats() -> CombatStats {
    CombatStats { max_hp: 30, hp: 30, defense: 2, power: 5 }
}

/// The statistics that an adversary starts with.
pub open spec fn monster_stats() -> CombatStats {
    CombatStats { max_hp: 16, hp: 16, defense: 1, power: 4 }
}

/// Whether `b` holds what the player starts with at `(x, y)`.
pub open spec fn is_player_kit(b: EntityBuilder, x: int, y: int) -> bool {
    &&& b.position == Some(Position { x: x as i32, y: y as i32 })
    &&& b.renderable == Some(
        Renderable {
            glyph: cp437_of('@'),
            fg: Rgb { r: 255, g: 255, b: 0 },
            bg: Rgb { r: 0, g: 0, b: 0 },
        },
    )
    &&& b.player is Some
    &&& b.viewshed matches Some(v) && is_fresh_viewshed(v)
    &&& b.monster is None
    &&& b.name matches Some(n) && n.name@ == "Player"@
    &&& b.blocks_tile is None
    &&& b.combat_stats == Some(player_stats())
    &&& b.wants_to_melee is None
    &&& b.suffer_damage is None
}

/// Whether `b` holds what the adversary number `number` starts with at
/// `(x, y)`, when the die that chose its kind showed `roll`: a goblin for 1,
/// an orc otherwise.
pub open spec fn is_monster_kit(b: EntityBuilder, x: int, y: int, roll: int, number: nat) -> bool {
    &&& b.position == Some(Position { x: x as i32, y: y as i32 })
    &&& b.renderable == Some(
        Renderable {
            glyph: if roll == 1 {
                cp437_of('g')
            } else {
                cp437_of('o')
            },
            fg: Rgb { r: 255, g: 0, b: 0 },
            bg: Rgb { r: 0, g: 0, b: 0 },
        },
    )
    &&& b.player is None
    &&& b.viewshed matches Some(v) && is_fresh_viewshed(v)
    &&& b.monster is Some
    &&& b.name matches Some(n) && n.name@ == if roll == 1 {
        numbered("Goblin"@, number)
    } else {
        numbered("Orc"@, number)
    }
    &&& b.blocks_tile is Some
    &&& b.combat_stats == Some(monster_stats())
    &&& b.wants_to_melee is None
    &&& b.suffer_damage is None
}

/// What the player starts with at `(x, y)`.
pub fn player_kit(x: i32, y: i32) -> (b: EntityBuilder)
    ensures
        is_player_kit(b, x as int, y as int),
{
    EntityBuilder {
        position: Some(Position { x, y }),
        renderable: Some(Renderable { glyph: to_cp437('@'), fg: Rgb::yellow(), bg: Rgb::black() }),
        player: Some(Player {}),
        viewshed: Some(Viewshed::new(SIGHT_RANGE)),
        monster: None,
        name: Some(Name { name: String::from_str("Player") }),
        blocks_tile: None,
        combat_stats: Some(CombatStats { max_hp: 30, hp: 30, defense: 2, power: 5 }),
        wants_to_melee: None,
        suffer_damage: None,
    }
}

/// What the adversary number `number` starts with at `(x, y)`, when the die
/// that chooses its kind showed `roll`.
pub fn monster_kit(x: i32, y: i32, roll: i32, number: usize) -> (b: EntityBuilder)
    ensures
        is_monster_kit(b, x as int, y as int, roll as int, number as nat),
{
    let glyph;
    let name;
    if roll == 1 {
        glyph = to_cp437('g');
        name = numbered_name("Goblin", number);
    } else {
        glyph = to_cp437('o');
        name = numbered_name("Orc", number);
    }
    EntityBuilder {
        position: Some(Position { x, y }),
        renderable: Some(Renderable { glyph, fg: Rgb::red(), bg: Rgb::black() }),
        player: None,
        viewshed: Some(Viewshed::new(SIGHT_RANGE)),
        monster: Some(Monster {}),
        name: Some(Name { name }),
        blocks_tile: Some(BlocksTile {}),
        combat_stats: Some(CombatStats { max_hp: 16, hp: 16, defense: 1, power: 4 }),
        wants_to_melee: None,
        suffer_damage: None,
    }
}

impl World {
    /// The components of the entity of slot `i`, as the builder of an entity
    /// that has the same.
    pub open spec fn kit_of(self, i: int) -> EntityBuilder {
        EntityBuilder {
            position: if self.positions.has(i) {
                Some(self.positions@[i])
            } else {
                None
            },
            renderable: if self.renderables.has(i) {
                Some(self.renderables@[i])
            } else {
                None
            },
            player: if self.players.has(i) {
                Some(self.players@[i])
            } else {
                None
            },
            viewshed: if self.viewsheds.has(i) {
                Some(self.viewsheds@[i])
            } else {
                None
            },
            monster: if self.monsters.has(i) {
                Some(self.monsters@[i])
            } else {
                None
            },
            name: if self.names.has(i) {
                Some(self.names@[i])
            } else {
                None
            },
            blocks_tile: if self.blockers.has(i) {
                Some(self.blockers@[i])
            } else {
                None
            },
            combat_stats: if self.combat_stats.has(i) {
                Some(self.combat_stats@[i])
            } else {
                None
            },
            wants_to_melee: if self.wants_to_melee.has(i) {
                Some(self.wants_to_melee@[i])
            } else {
                None
            },
            suffer_damage: if self.suffer_damage.has(i) {
                Some(self.suffer_damage@[i])
            } else {
                None
            },
        }
    }

    /// Whether the entity of slot `i` is an adversary as it starts at
    /// `(x, y)` with the number `number`: a goblin or an orc.
    pub open spec fn is_monster_start(self, i: int, x: int, y: int, number: nat) -> bool {
        is_monster_kit(self.kit_of(i), x, y, 1, number) || is_monster_kit(
            self.kit_of(i),
            x,
            y,
            2,
            number,
        )
    }

    /// Whether the store holds `n` live entities in the slots `0 .. n`, all
    /// of the first generation, and nothing else.
    pub open spec fn holds_first(self, n: int) -> bool {
        &&& self.entities.slot_count() == n
        &&& forall|i: int|
            0 <= i < n ==> #[trigger] self.entities.states@[i] == SlotState::Live
                && self.entities.generations@[i] == 0
    }

    /// Whether the store is the start of a game on `map`: the player stands
    /// in the center of the first room, and in the center of every other room
    /// stands one adversary. The entities fill the slots in the order of the
    /// rooms, and the adversaries are numbered from 0 in that order.
    pub open spec fn is_start_on(self, map: TileMap) -> bool {
        &&& self.map == map
        &&& self.run_state == RunState::Pre
        &&& self.alerted@ == Seq::<Entity>::empty()
        &&& self.holds_first(map.rooms@.len() as int)
        &&& self.player == Some(Entity { index: 0, generation: 0 })
        &&& self.player_pos == (Coord {
            x: map.rooms@[0].center_point().0 as i32,
            y: map.rooms@[0].center_point().1 as i32,
        })
        &&& is_player_kit(
            self.kit_of(0),
            map.rooms@[0].center_point().0,
            map.rooms@[0].center_point().1,
        )
        &&& forall|i: int|
            1 <= i < map.rooms@.len() ==> self.is_monster_start(
                i,
                (#[trigger] map.rooms@[i]).center_point().0,
                map.rooms@[i].center_point().1,
                (i - 1) as nat,
            )
        &&& forall|i: int| #[trigger] self.players.has(i) <==> i == 0
        &&& forall|i: int| #[trigger] self.monsters.has(i) <==> 1 <= i < map.rooms@.len()
        &&& forall|i: int|
            #[trigger] self.monsters.has(i) ==> !map.rooms@[0].covers(
                self.positions@[i].x as int,
                self.positions@[i].y as int,
            )
    }
}

/// In a map whose layout is in order, no room covers the center of another.
pub proof fn lemma_center_in_own_room_only(map: TileMap, i: int, j: int)
    requires
        map.layout_ok(),
        0 <= i < j < map.rooms@.len(),
    ensures
        !map.rooms@[i].covers(map.rooms@[j].center_point().0, map.rooms@[j].center_point().1),
        !map.rooms@[j].covers(map.rooms@[i].center_point().0, map.rooms@[i].center_point().1),
{
    let a = map.rooms@[i];
    let b = map.rooms@[j];
    assert(map.room_fits(a) && map.room_fits(b));
    assert(!a.intersects(b));
    lemma_center_covered(a);
    lemma_center_covered(b);
    if a.covers(b.center_point().0, b.center_point().1) {
        lemma_common_tile_intersects(a, b, b.center_point().0, b.center_point().1);
    }
    if b.covers(a.center_point().0, a.center_point().1) {
        lemma_common_tile_intersects(a, b, a.center_point().0, a.center_point().1);
    }
}

impl State {
    /// Starts a game on `map`: spawns the player in the center of the first
    /// room and one adversary in the center of every other room, a goblin or
    /// an orc as a die decides. No adversary stands in the first room.
    pub fn populate(map: TileMap, rng: &mut RandomNumberGenerator) -> (state: State)
        requires
            map.wf(),
            map.layout_ok(),
            map.rooms@.len() >= 1,
        ensures
            state.ecs.wf(),
            state.ecs.is_start_on(map),
    {
        let mut world = World::new(map);
        let (player_x, player_y) = world.map.rooms[0].center();
        proof {
            assert(map.room_fits(map.rooms@[0]));
            lemma_center_covered(map.rooms@[0]);
        }
        let ghost blank = world;
        let kit = player_kit(player_x, player_y);
        let ghost player_parts = kit;
        let player = world.create(kit);
        assert(player is Some);
        assert(player->0.index == 0);
        assert(world.kit_of(0) == player_parts);
        let n = world.map.rooms.len();
        let mut k: usize = 1;
        while k < n
            invariant
                1 <= k <= n,
                n == map.rooms@.len(),
                map.wf(),
                map.layout_ok(),
                world.wf(),
                world.map == map,
                world.run_state == RunState::Pre,
                world.alerted@ == Seq::<Entity>::empty(),
                world.player is None,
                world.holds_first(k as int),
                is_player_kit(
                    world.kit_of(0),
                    map.rooms@[0].center_point().0,
                    map.rooms@[0].center_point().1,
                ),
                forall|i: int|
                    1 <= i < k ==> world.is_monster_start(
                        i,
                        (#[trigger] map.rooms@[i]).center_point().0,
                        map.rooms@[i].center_point().1,
                        (i - 1) as nat,
                    ),
                forall|i: int| #[trigger] world.players.has(i) <==> i == 0,
                forall|i: int| #[trigger] world.monsters.has(i) <==> 1 <= i < k,
                forall|i: int|
                    #[trigger] world.monsters.has(i) ==> !map.rooms@[0].covers(
                        world.positions@[i].x as int,
                        world.positions@[i].y as int,
                    ),
            decreases n - k,
        {
            let (x, y) = world.map.rooms[k].center();
            proof {
                assert(map.room_fits(map.rooms@[k as int]));
                lemma_center_covered(map.rooms@[k as int]);
                lemma_center_in_own_room_only(map, 0, k as int);
            }
            let roll = roll_dice(rng, 1, 2);
            let kit = monster_kit(x, y, roll, k - 1);
            let ghost parts = kit;
            let ghost entry = world;
            let spawned = world.create(kit);
            proof {
                assert(spawned is Some);
                assert(spawned->0.index == k);
                assert(world.kit_of(k as int) == parts);
                assert forall|i: int| 0 <= i < k implies world.kit_of(i) == entry.kit_of(i) by {}
                assert forall|i: int| 1 <= i < k + 1 implies world.is_monster_start(
                    i,
                    (#[trigger] map.rooms@[i]).center_point().0,
                    map.rooms@[i].center_point().1,
                    (i - 1) as nat,
                ) by {
                    if i < k {
                        assert(entry.is_monster_start(
                            i,
                            map.rooms@[i].center_point().0,
                            map.rooms@[i].center_point().1,
                            (i - 1) as nat,
                        ));
                    }
                }
            }
            k += 1;
        }
        world.player = player;
        world.player_pos = Coord { x: player_x, y: player_y };
        State { ecs: world }
    }

    /// Starts a new game: digs a map of `MAP_WIDTH` by `MAP_HEIGHT` tiles and
    /// populates it.
    pub fn new(rng: &mut RandomNumberGenerator) -> (state: State)
        ensures
            state.ecs.wf(),
            state.ecs.map.width == MAP_WIDTH,
            state.ecs.map.height == MAP_HEIGHT,
            state.ecs.map.layout_ok(),
            state.ecs.is_start_on(state.ecs.map),
    {
        let map = TileMap::new_map_rooms_and_corridors(MAP_WIDTH, MAP_HEIGHT, rng);
        State::populate(map, rng)
    }
}

} // verus!
