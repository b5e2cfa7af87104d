//! The building blocks of the entity-component store: entity handles, the
//! allocator that issues and retires them, and sparse component storages.

use vstd::prelude::*;

verus! {

/// A handle to an entity: a slot of the allocator and the generation of that
/// slot at the time the handle was issued. It carries no data of its own.
#[derive(Clone, Copy, Debug, PartialEq, Eq, Structural)]
pub struct Entity {
    pub index: usize,
    pub generation: u32,
}

/// What a slot of the allocator currently holds.
#[derive(Clone, Copy, Debug, PartialEq, Eq, Structural)]
pub enum SlotState {
    /// No entity; the slot can be issued again.
    Vacant,
    /// A live entity.
    Live,
    /// An entity that was destroyed and waits to be reaped.
    Doomed,
}

/// The entity allocator. Slot `i` is described by `generations[i]` and
/// `states[i]`.
pub struct Entities {
    pub generations: Vec<u32>,
    pub states: Vec<SlotState>,
}

impl Entities {
    /// The two arrays describe the same slots.
    pub open spec fn wf(self) -> bool {
        self.generations@.len() == self.states@.len()
    }

    /// The number of slots.
    pub open spec fn slot_count(self) -> int {
        self.states@.len() as int
    }

    /// Whether slot `i` holds an entity, live or doomed.
    pub open spec fn occupied(self, i: int) -> bool {
        0 <= i < self.states@.len() && self.states@[i] != SlotState::Vacant
    }

    /// Whether `e` is the live entity of its slot.
    pub open spec fn alive(self, e: Entity) -> bool {
        &&& e.index < self.states@.len()
        &&& self.states@[e.index as int] == SlotState::Live
        &&& self.generations@[e.index as int] == e.generation
    }

    /// Whether `e` was destroyed and has not been reaped yet.
    pub open spec fn doomed(self, e: Entity) -> bool {
        &&& e.index < self.states@.len()
        &&& self.states@[e.index as int] == SlotState::Doomed
        &&& self.generations@[e.index as int] == e.generation
    }

    /// The handle of whatever slot `i` holds.
    pub open spec fn handle(self, i: int) -> Entity {
        Entity { index: i as usize, generation: self.generations@[i] }
    }

    /// Whether slot `i` can be issued again: it is vacant and its generation
    /// can still go up.
    pub open spec fn reusable(self, i: int) -> bool {
        &&& 0 <= i < self.states@.len()
        &&& self.states@[i] == SlotState::Vacant
        &&& self.generations@[i] < u32::MAX
    }

    /// Whether `i` is the slot that the next `create` issues: the first
    /// reusable slot, or a new slot at the end when none is reusable.
    pub open spec fn is_next_slot(self, i: int) -> bool {
        &&& 0 <= i <= self.states@.len()
        &&& i < self.states@.len() ==> self.reusable(i)
        &&& forall|j: int| 0 <= j < i ==> !self.reusable(j)
    }

    /// Whether `e` is a handle of the past: its slot exists and has seen the
    /// generation of `e`, and `e` is not alive.
    pub open spec fn retired(self, e: Entity) -> bool {
        &&& e.index < self.states@.len()
        &&& e.generation <= self.generations@[e.index as int]
        &&& !self.alive(e)
    }

    /// An allocator without slots.
    pub fn new() -> (s: Entities)
        ensures
            s.wf(),
            s.slot_count() == 0,
    {
        Entities { generations: Vec::new(), states: Vec::new() }
    }

    /// The number of slots, vacant ones included.
    pub fn len(&self) -> (n: usize)
        requires
            self.wf(),
        ensures
            n == self.slot_count(),
    {
        self.states.len()
    }

    /// True when `e` is the live entity of its slot. A stale handle, whose
    /// slot was reaped or issued again, is not alive.
    pub fn is_alive(&self, e: Entity) -> (b: bool)
        requires
            self.wf(),
        ensures
            b == self.alive(e),
    {
        e.index < self.states.len() && self.states[e.index] == SlotState::Live
            && self.generations[e.index] == e.generation
    }

    /// The handle of the entity in slot `i`, if the slot holds one.
    pub fn entity_at(&self, i: usize) -> (r: Option<Entity>)
        requires
            self.wf(),
        ensures
            r == if self.occupied(i as int) {
                Some(self.handle(i as int))
            } else {
                None
            },
    {
        if i < self.states.len() && self.states[i] != SlotState::Vacant {
            Some(Entity { index: i, generation: self.generations[i] })
        } else {
            None
        }
    }

    /// True when slot `i` holds an entity that waits to be reaped.
    pub fn is_doomed_slot(&self, i: usize) -> (b: bool)
        requires
            self.wf(),
        ensures
            b == (i < self.slot_count() && self.states@[i as int] == SlotState::Doomed),
    {
        i < self.states.len() && self.states[i] == SlotState::Doomed
    }

    /// Whether `after` is this allocator after it issued `e`: the slot of `e`
    /// is the next one, its generation is one more than the slot had, or 0
    /// for a new slot, and the slot is live. No other slot differs.
    pub open spec fn issued(self, e: Entity, after: Entities) -> bool {
        &&& self.is_next_slot(e.index as int)
        &&& if e.index < self.states@.len() {
            &&& e.generation == self.generations@[e.index as int] + 1
            &&& after.generations@ == self.generations@.update(e.index as int, e.generation)
            &&& after.states@ == self.states@.update(e.index as int, SlotState::Live)
        } else {
            &&& e.generation == 0
            &&& after.generations@ == self.generations@.push(0)
            &&& after.states@ == self.states@.push(SlotState::Live)
        }
    }

    /// Issues a fresh live entity, in the first reusable slot or in a new one.
    pub fn create(&mut self) -> (e: Entity)
        requires
            old(self).wf(),
        ensures
            final(self).wf(),
            old(self).issued(e, *final(self)),
            !old(self).occupied(e.index as int),
            final(self).alive(e),
    {
        let n = self.states.len();
        let mut i: usize = 0;
        while i < n
            invariant
                *self == *old(self),
                self.wf(),
                n == self.states@.len(),
                0 <= i <= n,
                forall|j: int| 0 <= j < i ==> !self.reusable(j),
            decreases n - i,
        {
            if self.states[i] == SlotState::Vacant && self.generations[i] < u32::MAX {
                let generation = self.generations[i] + 1;
                self.generations[i] = generation;
                self.states[i] = SlotState::Live;
                return Entity { index: i, generation };
            }
            i += 1;
        }
        self.generations.push(0);
        self.states.push(SlotState::Live);
        Entity { index: n, generation: 0 }
    }

    /// Marks the live entity `e` for removal and reports whether it did. A
    /// handle that is not alive changes nothing.
    pub fn destroy(&mut self, e: Entity) -> (done: bool)
        requires
            old(self).wf(),
        ensures
            final(self).wf(),
            done == old(self).alive(e),
            final(self).generations@ == old(self).generations@,
            final(self).states@ == if done {
                old(self).states@.update(e.index as int, SlotState::Doomed)
            } else {
                old(self).states@
            },
    {
        if self.is_alive(e) {
            self.states[e.index] = SlotState::Doomed;
            true
        } else {
            false
        }
    }

    /// Empties the doomed slot `i`, so that it can be issued again.
    pub fn reap(&mut self, i: usize)
        requires
            old(self).wf(),
            i < old(self).slot_count(),
            old(self).states@[i as int] == SlotState::Doomed,
        ensures
            final(self).wf(),
            final(self).generations@ == old(self).generations@,
            final(self).states@ == old(self).states@.update(i as int, SlotState::Vacant),
    {
        self.states[i] = SlotState::Vacant;
    }
}

/// An entity that is issued is fresh: it is none of the handles of the past,
/// which stay in the past, and none of the live entities, which stay alive.
pub proof fn lemma_issued_is_fresh(before: Entities, after: Entities, e: Entity, other: Entity)
    requires
        before.wf(),
        before.issued(e, after),
    ensures
        before.retired(other) ==> other != e && after.retired(other),
        before.alive(other) ==> other != e && after.alive(other),
{
}

/// A handle of the past stays in the past when an entity is destroyed or a
/// slot is reaped: only `create` makes a slot live, and never with a
/// generation that the slot has seen.
pub proof fn lemma_retired_stays_retired(
    before: Entities,
    after: Entities,
    i: int,
    state: SlotState,
    other: Entity,
)
    requires
        before.wf(),
        0 <= i < before.states@.len(),
        state != SlotState::Live,
        after.generations@ == before.generations@,
        after.states@ == before.states@.update(i, state),
        before.retired(other),
    ensures
        after.retired(other),
{
}

/// A sparse mapping from slots to values of one component kind.
pub struct Storage<T> {
    pub slots: Vec<Option<T>>,
}

impl<T> View for Storage<T> {
    type V = Map<int, T>;

    /// The mapping from each slot that has the component to its value.
    open spec fn view(&self) -> Map<int, T> {
        Map::new(
            |i: int| 0 <= i < self.slots@.len() && self.slots@[i] is Some,
            |i: int| self.slots@[i]->0,
        )
    }
}

impl<T> Storage<T> {
    /// Whether slot `i` has the component.
    #[verifier::inline]
    pub open spec fn has(self, i: int) -> bool {
        self@.dom().contains(i)
    }

    /// A storage in which no slot has the component.
    pub fn new() -> (s: Storage<T>)
        ensures
            s@ == Map::<int, T>::empty(),
    {
        let s = Storage { slots: Vec::new() };
        assert(s@ =~= Map::<int, T>::empty());
        s
    }

    /// The number of slots that the storage keeps room for: a bound above
    /// every slot that has the component.
    pub fn len(&self) -> (n: usize)
        ensures
            n == self.slots@.len(),
            forall|i: int| self.has(i) ==> 0 <= i < n,
    {
        self.slots.len()
    }

    /// True when slot `i` has the component.
    pub fn contains(&self, i: usize) -> (b: bool)
        ensures
            b == self.has(i as int),
    {
        i < self.slots.len() && self.slots[i].is_some()
    }

    /// The component of slot `i`, if it has one.
    pub fn get(&self, i: usize) -> (r: Option<&T>)
        ensures
            r is Some == self.has(i as int),
            r is Some ==> *r->0 == self@[i as int],
    {
        if i < self.slots.len() {
            self.slots[i].as_ref()
        } else {
            None
        }
    }

    /// Gives slot `i` the component `value`, in place of any it had.
    pub fn insert(&mut self, i: usize, value: T)
        ensures
            final(self)@ == old(self)@.insert(i as int, value),
    {
        while self.slots.len() <= i
            invariant
                self@ == old(self)@,
            decreases i + 1 - self.slots.len(),
        {
            self.slots.push(None);
            assert(self@ =~= old(self)@);
        }
        self.slots[i] = Some(value);
        assert(self@ =~= old(self)@.insert(i as int, value));
    }

    /// Gives slot `i` the component `value` if there is one.
    pub fn attach(&mut self, i: usize, value: Option<T>)
        ensures
            final(self)@ == match value {
                Some(v) => old(self)@.insert(i as int, v),
                None => old(self)@,
            },
    {
        match value {
            Some(v) => {
                self.insert(i, v);
            },
            None => {},
        }
    }

    /// The component of the live entity `e`, if it has one. A handle that is
    /// not alive finds nothing.
    pub fn get_for(&self, entities: &Entities, e: Entity) -> (r: Option<&T>)
        requires
            entities.wf(),
        ensures
            r is Some == (entities.alive(e) && self.has(e.index as int)),
            r is Some ==> *r->0 == self@[e.index as int],
    {
        if entities.is_alive(e) {
            self.get(e.index)
        } else {
            None
        }
    }

    /// Takes the component out of slot `i` and hands it over.
    pub fn take(&mut self, i: usize) -> (r: Option<T>)
        ensures
            r == if old(self).has(i as int) {
                Some(old(self)@[i as int])
            } else {
                None
            },
            final(self)@ == old(self)@.remove(i as int),
    {
        if i < self.slots.len() {
            let r = self.slots[i].take();
            assert(self@ =~= old(self)@.remove(i as int));
            r
        } else {
            assert(self@ =~= old(self)@.remove(i as int));
            None
        }
    }

    /// Takes the component from slot `i` and reports whether it had one.
    pub fn remove(&mut self, i: usize) -> (had: bool)
        ensures
            had == old(self).has(i as int),
            final(self)@ == old(self)@.remove(i as int),
    {
        if i < self.slots.len() {
            let had = self.slots[i].is_some();
            self.slots[i] = None;
            assert(self@ =~= old(self)@.remove(i as int));
            had
        } else {
            assert(self@ =~= old(self)@.remove(i as int));
            false
        }
    }
}

} // verus!
