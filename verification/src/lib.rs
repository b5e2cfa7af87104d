//! Simulation core of a turn-based dungeon crawl: a procedurally generated tile
//! map, an entity-component store, the per-tick systems that run over them, and
//! the turn-state scheduler that orders those systems.

pub mod components;
pub mod damage_system;
pub mod fov;
pub mod grid;
pub mod map;
pub mod map_builder;
pub mod map_indexing_system;
pub mod monster_ai_system;
pub mod player;
pub mod random;
pub mod reach;
pub mod rect;
pub mod spawner;
pub mod state;
pub mod store;
pub mod visibility_system;
pub mod world;

pub use components::{
    BlocksTile, CombatStats, Coord, Monster, Name, Player, Position, Renderable, Rgb, SufferDamage,
    Viewshed, WantsToMelee, MAX_VIEW_RANGE,
};
pub use damage_system::{apply_damage, delete_the_dead, sum_damage, DamageSystem};
pub use map::{TileMap, TileType, MAX_TILES};
pub use map_builder::{MAX_ROOMS, MAX_SIZE, MIN_SIZE};
pub use map_indexing_system::MapIndexingSystem;
pub use monster_ai_system::{sees, MonsterAI};
pub use player::{player_input, try_move_player, Direction};
pub use rect::Rect;
pub use spawner::{monster_kit, numbered_name, player_kit, MAP_HEIGHT, MAP_WIDTH, SIGHT_RANGE};
pub use state::{RunState, Sprite, State};
pub use store::{Entities, Entity, SlotState, Storage};
pub use visibility_system::VisibilitySystem;
pub use world::{EntityBuilder, World};
