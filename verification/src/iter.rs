use vstd::prelude::*;

use crate::arena::Arena;
use crate::arena::Index;
use crate::arena::SlotModel;
use crate::arena::lemma_occupied_count_when_all_vacant;

verus! {

/// Read-only traversal over the occupied slots of an arena, in ascending
/// slot order. The view holds only a cursor: each step is handed the arena
/// it walks and yields the next occupied slot at or past the cursor.
pub struct Iter {
    pub cursor: u32,
}

/// Mutating traversal over the occupied slots of an arena, in ascending
/// slot order, yielding a mutable reference to each value.
pub struct IterMut {
    pub cursor: u32,
}

/// Draining traversal over the occupied slots of an arena, in ascending
/// slot order. Each yielded element is removed from the arena as it is
/// produced; elements not yet yielded stay in the arena untouched, so a
/// drain abandoned early loses nothing beyond what it already handed out.
pub struct Drain {
    pub cursor: u32,
}

impl Iter {
    /// The next occupied slot at or past the cursor, as an index-value
    /// pair, or `None` when only vacant slots remain.
    pub fn next<'a, T>(&mut self, arena: &'a Arena<T>) -> (r: Option<(Index, &'a T)>)
        requires
            arena.wf(),
        ensures
            r is None ==> old(self).cursor <= final(self).cursor && (forall|t: int|
                old(self).cursor <= t < arena@.len() ==> (#[trigger] arena@[t]).content is None),
            r is Some ==> ({
                &&& old(self).cursor <= r.unwrap().0.slot
                &&& (r.unwrap().0.slot as int) < arena@.len()
                &&& forall|t: int|
                    old(self).cursor <= t < r.unwrap().0.slot ==> (#[trigger] arena@[t]).content
                        is None
                &&& arena.valid(r.unwrap().0)
                &&& r.unwrap().0.generation@ == arena@[r.unwrap().0.slot as int].generation
                &&& arena@[r.unwrap().0.slot as int].content == Some(*r.unwrap().1)
                &&& final(self).cursor == r.unwrap().0.slot + 1
            }),
    {
        while (self.cursor as usize) < arena.slot_count()
            invariant
                arena.wf(),
                old(self).cursor <= self.cursor,
                forall|t: int|
                    old(self).cursor <= t < self.cursor && t < arena@.len() ==> (
                    #[trigger] arena@[t]).content is None,
            decreases arena@.len() - self.cursor as int,
        {
            let slot = self.cursor;
            self.cursor = slot + 1;
            match arena.get_by_slot(slot) {
                Some(found) => {
                    return Some(found);
                },
                None => {},
            }
        }
        None
    }
}

impl IterMut {
    /// The next occupied slot at or past the cursor, as an index paired
    /// with a mutable reference to the value, or `None` when only vacant
    /// slots remain. Only the yielded slot's value can change.
    pub fn next<'a, T>(&mut self, arena: &'a mut Arena<T>) -> (r: Option<(Index, &'a mut T)>)
        requires
            old(arena).wf(),
        ensures
            final(arena).wf(),
            final(arena).free_order() == old(arena).free_order(),
            final(arena).spec_len() == old(arena).spec_len(),
            r is None ==> final(arena)@ == old(arena)@ && old(self).cursor <= final(self).cursor
                && (forall|t: int|
                old(self).cursor <= t < old(arena)@.len() ==> (#[trigger] old(arena)@[t]).content is None),
            r is Some ==> ({
                &&& old(self).cursor <= r.unwrap().0.slot
                &&& (r.unwrap().0.slot as int) < old(arena)@.len()
                &&& forall|t: int|
                    old(self).cursor <= t < r.unwrap().0.slot ==> (#[trigger] old(arena)@[t]).content is None
                &&& old(arena).valid(r.unwrap().0)
                &&& r.unwrap().0.generation@ == old(arena)@[r.unwrap().0.slot as int].generation
                &&& old(arena)@[r.unwrap().0.slot as int].content == Some(*r.unwrap().1)
                &&& final(arena)@ == old(arena)@.update(
                    r.unwrap().0.slot as int,
                    (SlotModel {
                        generation: r.unwrap().0.generation@,
                        content: Some(*final(r.unwrap().1)),
                    }),
                )
                &&& final(self).cursor == r.unwrap().0.slot + 1
            }),
    {
        while (self.cursor as usize) < arena.slot_count()
            invariant
                arena.wf(),
                *arena == *old(arena),
                old(self).cursor <= self.cursor,
                forall|t: int|
                    old(self).cursor <= t < self.cursor && t < arena@.len() ==> (
                    #[trigger] arena@[t]).content is None,
            decreases arena@.len() - self.cursor as int,
        {
            let slot = self.cursor;
            self.cursor = slot + 1;
            let occupied = match arena.contains_slot(slot) {
                Some(_) => true,
                None => false,
            };
            if occupied {
                return arena.get_by_slot_mut(slot);
            }
        }
        None
    }
}

impl Drain {
    /// Whether every slot below the cursor is vacant: true of a drain that
    /// started at zero and has walked this arena alone, and the reason a
    /// fully drained arena is empty.
    pub open spec fn swept<T>(self, arena: Arena<T>) -> bool {
        forall|t: int| 0 <= t < self.cursor ==> (#[trigger] arena@[t]).content is None
    }

    /// Remove and return the value of the next occupied slot at or past the
    /// cursor, with its index, or `None` when only vacant slots remain.
    /// Elements not yet yielded are untouched; once `None` comes back from
    /// a drain that swept the whole arena, the arena is empty.
    pub fn next<T>(&mut self, arena: &mut Arena<T>) -> (r: Option<(Index, T)>)
        requires
            old(arena).wf(),
        ensures
            final(arena).wf(),
            r is None ==> final(arena)@ == old(arena)@ && final(arena).free_order() == old(arena).free_order() && final(arena).spec_len() == old(arena).spec_len() && old(self).cursor
                <= final(self).cursor && (forall|t: int|
                old(self).cursor <= t < old(arena)@.len() ==> (#[trigger] old(arena)@[t]).content is None) && (old(self).swept(*old(arena)) ==> final(arena).spec_len() == 0),
            r is Some ==> ({
                &&& old(self).cursor <= r.unwrap().0.slot
                &&& (r.unwrap().0.slot as int) < old(arena)@.len()
                &&& forall|t: int|
                    old(self).cursor <= t < r.unwrap().0.slot ==> (#[trigger] old(arena)@[t]).content is None
                &&& old(arena).valid(r.unwrap().0)
                &&& r.unwrap().0.generation@ == old(arena)@[r.unwrap().0.slot as int].generation
                &&& old(arena)@[r.unwrap().0.slot as int].content == Some(r.unwrap().1)
                &&& final(arena)@ == old(arena)@.update(
                    r.unwrap().0.slot as int,
                    (SlotModel { generation: r.unwrap().0.generation@, content: None::<T> }),
                )
                &&& final(arena).free_order() == seq![r.unwrap().0.slot] + old(arena).free_order()
                &&& final(arena).spec_len() == old(arena).spec_len() - 1
                &&& final(self).cursor == r.unwrap().0.slot + 1
                &&& old(self).swept(*old(arena)) ==> final(self).swept(*final(arena))
            }),
    {
        while (self.cursor as usize) < arena.slot_count()
            invariant
                arena.wf(),
                arena@ == old(arena)@,
                arena.free_order() == old(arena).free_order(),
                arena.spec_len() == old(arena).spec_len(),
                old(self).cursor <= self.cursor,
                forall|t: int|
                    old(self).cursor <= t < self.cursor && t < arena@.len() ==> (
                    #[trigger] arena@[t]).content is None,
            decreases arena@.len() - self.cursor as int,
        {
            let slot = self.cursor;
            self.cursor = slot + 1;
            match arena.remove_by_slot(slot) {
                Some(removed) => {
                    return Some(removed);
                },
                None => {},
            }
        }
        proof {
            if old(self).swept(*old(arena)) {
                arena.lemma_len_counts_occupied();
                lemma_occupied_count_when_all_vacant(arena@);
            }
        }
        None
    }
}

/// Consuming traversal: owns the arena it was made from and hands out each
/// occupied slot's index and value, in ascending slot order.
pub struct IntoIter<T> {
    pub arena: Arena<T>,
    pub cursor: u32,
}

impl<T> IntoIter<T> {
    /// The next occupied slot's index and owned value, or `None` when only
    /// vacant slots remain.
    pub fn next(&mut self) -> (r: Option<(Index, T)>)
        requires
            old(self).arena.wf(),
        ensures
            final(self).arena.wf(),
            r is None ==> final(self).arena@ == old(self).arena@,
            r is Some ==> ({
                &&& old(self).cursor <= r.unwrap().0.slot
                &&& (r.unwrap().0.slot as int) < old(self).arena@.len()
                &&& forall|t: int|
                    old(self).cursor <= t < r.unwrap().0.slot ==> (#[trigger] old(
                        self,
                    ).arena@[t]).content is None
                &&& old(self).arena.valid(r.unwrap().0)
                &&& old(self).arena@[r.unwrap().0.slot as int].content == Some(r.unwrap().1)
                &&& final(self).arena@ == old(self).arena@.update(
                    r.unwrap().0.slot as int,
                    (SlotModel { generation: r.unwrap().0.generation@, content: None::<T> }),
                )
                &&& final(self).cursor == r.unwrap().0.slot + 1
            }),
    {
        while (self.cursor as usize) < self.arena.slot_count()
            invariant
                self.arena.wf(),
                self.arena@ == old(self).arena@,
                old(self).cursor <= self.cursor,
                forall|t: int|
                    old(self).cursor <= t < self.cursor && t < self.arena@.len() ==> (
                    #[trigger] self.arena@[t]).content is None,
            decreases self.arena@.len() - self.cursor as int,
        {
            let slot = self.cursor;
            self.cursor = slot + 1;
            match self.arena.remove_by_slot(slot) {
                Some(removed) => {
                    return Some(removed);
                },
                None => {},
            }
        }
        None
    }
}

impl<T> Arena<T> {
    /// Consume the arena into an owning traversal of its live values.
    pub fn into_iter(self) -> (r: IntoIter<T>)
        ensures
            r.arena == self,
            r.cursor == 0,
    {
        IntoIter { arena: self, cursor: 0 }
    }

    /// Begin a read-only traversal of the occupied slots in ascending slot
    /// order.
    pub fn iter(&self) -> (r: Iter)
        ensures
            r.cursor == 0,
    {
        Iter { cursor: 0 }
    }

    /// Begin a mutating traversal of the occupied slots in ascending slot
    /// order.
    pub fn iter_mut(&mut self) -> (r: IterMut)
        ensures
            r.cursor == 0,
            *final(self) == *old(self),
    {
        IterMut { cursor: 0 }
    }

    /// Begin draining the arena: the traversal removes each element it
    /// yields. Abandoning it early leaves every unyielded element in place,
    /// and capacity is never reduced.
    pub fn drain(&mut self) -> (r: Drain)
        ensures
            r.cursor == 0,
            *final(self) == *old(self),
    {
        Drain { cursor: 0 }
    }
}

} // verus!
