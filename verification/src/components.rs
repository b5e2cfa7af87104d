//! The component kinds that can be attached to an entity.

use crate::store::{Entities, Entity, Storage};
use vstd::prelude::*;

verus! {

/// The largest sight range a viewshed can have. A field-of-view scan squares
/// twice the range in 32-bit arithmetic and reserves that many tiles up front.
pub const MAX_VIEW_RANGE: i32 = 1024;

/// The coordinates of a tile.
#[derive(Clone, Copy, Debug, PartialEq, Eq, Structural)]
pub struct Coord {
    pub x: i32,
    pub y: i32,
}

/// Where an entity stands on the map.
#[derive(Clone, Copy, Debug, PartialEq, Eq, Structural)]
pub struct Position {
    pub x: i32,
    pub y: i32,
}

/// A colour as three 8-bit channels.
#[derive(Clone, Copy, Debug, PartialEq, Eq, Structural)]
pub struct Rgb {
    pub r: u8,
    pub g: u8,
    pub b: u8,
}

/// How an entity is drawn: a code page 437 glyph and its colours.
#[derive(Clone, Copy, Debug, PartialEq, Eq, Structural)]
pub struct Renderable {
    pub glyph: u16,
    pub fg: Rgb,
    pub bg: Rgb,
}

/// Marks the entity that the player controls.
#[derive(Clone, Copy, Debug, PartialEq, Eq, Structural)]
pub struct Player {}

/// Marks an adversary.
#[derive(Clone, Copy, Debug, PartialEq, Eq, Structural)]
pub struct Monster {}

/// Marks an entity that keeps others off its tile.
#[derive(Clone, Copy, Debug, PartialEq, Eq, Structural)]
pub struct BlocksTile {}

/// The tiles an entity currently sees, how far it sees, and whether the tiles
/// have to be computed anew.
#[derive(Clone, Debug)]
pub struct Viewshed {
    pub visible_tiles: Vec<Coord>,
    pub range: i32,
    pub dirty: bool,
}

/// What an entity is called.
#[derive(Clone, Debug)]
pub struct Name {
    pub name: String,
}

/// The fighting statistics of an entity. `hp` may be negative between damage
/// resolution and the removal of the dead.
#[derive(Clone, Copy, Debug, PartialEq, Eq, Structural)]
pub struct CombatStats {
    pub max_hp: i32,
    pub hp: i32,
    pub defense: i32,
    pub power: i32,
}

/// A request to attack `target` in melee. The store only keeps it: resolving
/// melee is left to whoever takes the request out and queues the damage with
/// `SufferDamage::new_damage`.
#[derive(Clone, Copy, Debug, PartialEq, Eq, Structural)]
pub struct WantsToMelee {
    pub target: Entity,
}

/// Damage amounts that wait to be taken from an entity's `hp`, in the order
/// in which they were inflicted.
#[derive(Clone, Debug)]
pub struct SufferDamage {
    pub amount: Vec<i32>,
}

impl Viewshed {
    /// Whether the range is one that a field-of-view scan accepts.
    pub open spec fn wf(self) -> bool {
        1 <= self.range <= MAX_VIEW_RANGE
    }

    /// A viewshed that sees nothing yet and has to be computed. Any range
    /// can be asked for; the store admits the viewshed only if a scan accepts
    /// the range.
    pub fn new(range: i32) -> (v: Viewshed)
        ensures
            v.visible_tiles@ == Seq::<Coord>::empty(),
            v.range == range,
            v.dirty,
    {
        Viewshed { visible_tiles: Vec::new(), range, dirty: true }
    }
}

impl SufferDamage {
    /// Queues `amount` of damage for the live entity `victim`, after any
    /// damage that waits already, and reports whether it did. Nothing is
    /// queued for a handle that is not alive.
    pub fn new_damage(
        store: &mut Storage<SufferDamage>,
        entities: &Entities,
        victim: Entity,
        amount: i32,
    ) -> (queued: bool)
        requires
            entities.wf(),
        ensures
            queued == entities.alive(victim),
            !queued ==> final(store)@ == old(store)@,
            queued ==> final(store)@.dom() == old(store)@.dom().insert(victim.index as int),
            queued ==> final(store)@[victim.index as int].amount@ == if old(store).has(
                victim.index as int,
            ) {
                old(store)@[victim.index as int].amount@.push(amount)
            } else {
                seq![amount]
            },
            queued ==> forall|i: int|
                i != victim.index && old(store).has(i) ==> final(store)@[i] == old(store)@[i],
    {
        if !entities.is_alive(victim) {
            return false;
        }
        let mut pending = match store.take(victim.index) {
            Some(suffering) => suffering.amount,
            None => Vec::new(),
        };
        pending.push(amount);
        store.insert(victim.index, SufferDamage { amount: pending });
        assert(store@.dom() =~= old(store)@.dom().insert(victim.index as int));
        true
    }
}

impl Rgb {
    pub fn black() -> (c: Rgb)
        ensures
            c == (Rgb { r: 0, g: 0, b: 0 }),
    {
        Rgb { r: 0, g: 0, b: 0 }
    }

    pub fn red() -> (c: Rgb)
        ensures
            c == (Rgb { r: 255, g: 0, b: 0 }),
    {
        Rgb { r: 255, g: 0, b: 0 }
    }

    pub fn yellow() -> (c: Rgb)
        ensures
            c == (Rgb { r: 255, g: 255, b: 0 }),
    {
        Rgb { r: 255, g: 255, b: 0 }
    }
}

} // verus!
