use vstd::prelude::*;

use crate::components::Entity;

verus! {

/// The value held for entity `id` in a slot sequence, if any.
pub open spec fn slot_of<T>(slots: Seq<Option<T>>, id: nat) -> Option<T> {
    if id < slots.len() {
        slots[id as int]
    } else {
        None
    }
}

/// Storage of one component type: at most one value per entity, kept in a
/// slot indexed by the entity's identifier.
pub struct Storage<T> {
    registered: bool,
    slots: Vec<Option<T>>,
}

impl<T: Copy> Storage<T> {
    /// The association from entity identifiers to values.
    pub closed spec fn view(&self) -> Map<nat, T> {
        Map::new(
            |id: nat| slot_of(self.slots@, id) is Some,
            |id: nat| slot_of(self.slots@, id)->Some_0,
        )
    }

    /// Whether the storage has been declared to the world.
    pub closed spec fn registered(&self) -> bool {
        self.registered
    }

    pub open spec fn has(&self, id: nat) -> bool {
        self@.contains_key(id)
    }

    /// An empty, not yet registered storage.
    pub fn new() -> (r: Self)
        ensures
            !r.registered(),
            r@ == Map::<nat, T>::empty(),
    {
        let r = Storage { registered: false, slots: Vec::new() };
        assert(r@ =~= Map::<nat, T>::empty());
        r
    }

    /// Declares the storage; its contents are left as they were.
    pub fn register(&mut self)
        ensures
            final(self).registered(),
            final(self)@ == old(self)@,
    {
        self.registered = true;
    }

    pub fn is_registered(&self) -> (r: bool)
        ensures
            r == self.registered(),
    {
        self.registered
    }

    pub fn contains(&self, e: Entity) -> (r: bool)
        ensures
            r == self.has(e.id as nat),
    {
        e.id < self.slots.len() as u64 && self.slots[e.id as usize].is_some()
    }

    pub fn get(&self, e: Entity) -> (r: Option<T>)
        ensures
            r == (if self.has(e.id as nat) { Some(self@[e.id as nat]) } else { None }),
    {
        if e.id < self.slots.len() as u64 {
            self.slots[e.id as usize]
        } else {
            None
        }
    }

    /// Associates `v` with `e`, replacing any value it had.
    pub fn insert(&mut self, e: Entity, v: T)
        requires
            e.id < usize::MAX,
        ensures
            final(self).registered() == old(self).registered(),
            final(self)@ == old(self)@.insert(e.id as nat, v),
    {
        while (self.slots.len() as u64) <= e.id
            invariant
                e.id < usize::MAX,
                self.registered == old(self).registered,
                forall|j: nat| slot_of(self.slots@, j) == slot_of(old(self).slots@, j),
            decreases e.id + 1 - self.slots.len(),
        {
            self.slots.push(None);
        }
        self.slots.set(e.id as usize, Some(v));
        assert(self@ =~= old(self)@.insert(e.id as nat, v));
    }

    /// Overwrites the value that `e` already has.
    pub fn replace(&mut self, e: Entity, v: T)
        requires
            old(self).has(e.id as nat),
        ensures
            final(self).registered() == old(self).registered(),
            final(self)@ == old(self)@.insert(e.id as nat, v),
    {
        let n = self.slots.len();
        assert(e.id < n);
        self.insert(e, v);
    }

    /// Removes any value associated with `e`.
    pub fn remove(&mut self, e: Entity)
        ensures
            final(self).registered() == old(self).registered(),
            final(self)@ == old(self)@.remove(e.id as nat),
    {
        if e.id < self.slots.len() as u64 {
            self.slots.set(e.id as usize, None);
        }
        assert(self@ =~= old(self)@.remove(e.id as nat));
    }

    /// One past the largest identifier that may hold a value.
    pub fn extent(&self) -> (r: u64)
        ensures
            forall|id: nat| self@.contains_key(id) ==> id < r,
    {
        self.slots.len() as u64
    }
}

/// The entities present in both storages, by increasing identifier: the
/// intersection that systems iterate over.
pub fn join<A: Copy, B: Copy>(a: &Storage<A>, b: &Storage<B>) -> (r: Vec<Entity>)
    ensures
        forall|k: int| 0 <= k < r@.len() ==> a@.contains_key(r@[k].id as nat) && b@.contains_key(r@[k].id as nat),
        forall|id: nat| a@.contains_key(id) && b@.contains_key(id) ==> exists|k: int| 0 <= k < r@.len() && r@[k].id == id,
        forall|k: int, l: int| 0 <= k < l < r@.len() ==> r@[k].id < r@[l].id,
{
    let n: u64 = a.extent();
    let mut r: Vec<Entity> = Vec::new();
    let mut i: u64 = 0;
    while i < n
        invariant
            i <= n,
            forall|id: nat| a@.contains_key(id) ==> id < n,
            forall|k: int| 0 <= k < r@.len() ==> a@.contains_key(r@[k].id as nat) && b@.contains_key(r@[k].id as nat),
            forall|k: int| 0 <= k < r@.len() ==> r@[k].id < i,
            forall|id: nat| id < i && a@.contains_key(id) && b@.contains_key(id) ==> exists|k: int| 0 <= k < r@.len() && r@[k].id == id,
            forall|k: int, l: int| 0 <= k < l < r@.len() ==> r@[k].id < r@[l].id,
        decreases n - i,
    {
        let e = Entity { id: i };
        let ghost before = r@;
        if a.contains(e) && b.contains(e) {
            r.push(e);
        }
        proof {
            assert forall|id: nat| id < i + 1 && a@.contains_key(id) && b@.contains_key(id) implies exists|k: int|
                0 <= k < r@.len() && r@[k].id == id by {
                if id < i {
                    let k = choose|k: int| 0 <= k < before.len() && before[k].id == id;
                    assert(r@[k] == before[k]);
                } else {
                    assert(r@[r@.len() - 1].id == id);
                }
            }
        }
        i = i + 1;
    }
    r
}

} // verus!
