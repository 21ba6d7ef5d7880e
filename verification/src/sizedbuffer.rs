//! A registry of a bounded number of tasks, each addressed by the index of
//! the slot that holds it.

use vstd::prelude::*;

verus! {

/// The index of the first free slot of `slots`, or their number when every
/// slot is taken.
pub open spec fn first_free<T>(slots: Seq<Option<T>>) -> int
    decreases slots.len(),
{
    if slots.len() == 0 || slots[0] is None {
        0
    } else {
        1 + first_free(slots.drop_first())
    }
}

/// Whether a registry with these slots and this capacity can take one more
/// task: a slot is free, or another slot may still be added.
pub open spec fn has_room<T>(slots: Seq<Option<T>>, capacity: nat) -> bool {
    first_free(slots) < slots.len() || slots.len() < capacity
}

/// The slots once `item` is stored at `index`: in place where the slot
/// exists, at the end otherwise.
pub open spec fn stored<T>(slots: Seq<Option<T>>, index: int, item: T) -> Seq<Option<T>> {
    if 0 <= index < slots.len() {
        slots.update(index, Some(item))
    } else {
        slots.push(Some(item))
    }
}

/// The index at which a registry with these slots and this capacity stores
/// the next task: that of the first free slot, or of the slot that would be
/// added. A full registry has none.
pub open spec fn probe<T>(slots: Seq<Option<T>>, capacity: nat) -> Option<usize> {
    if has_room(slots, capacity) {
        Some(first_free(slots) as usize)
    } else {
        None
    }
}

/// The slots of a registry after `item` is offered to it, and what the
/// offer returns: the index at which the item is stored, or the item itself
/// where the registry is full and stays as it is.
pub open spec fn added<T>(slots: Seq<Option<T>>, capacity: nat, item: T) -> (
    Seq<Option<T>>,
    Result<usize, T>,
) {
    if has_room(slots, capacity) {
        (stored(slots, first_free(slots), item), Ok(first_free(slots) as usize))
    } else {
        (slots, Err(item))
    }
}

/// The slots once the one at `index` is emptied; an index out of range
/// changes nothing.
pub open spec fn emptied<T>(slots: Seq<Option<T>>, index: int) -> Seq<Option<T>> {
    if 0 <= index < slots.len() {
        slots.update(index, None)
    } else {
        slots
    }
}

/// What the slot at `index` holds; nothing when the index is out of range.
pub open spec fn held<T>(slots: Seq<Option<T>>, index: int) -> Option<T> {
    if 0 <= index < slots.len() {
        slots[index]
    } else {
        None
    }
}

/// The number of slots that hold a task.
pub open spec fn in_flight<T>(slots: Seq<Option<T>>) -> nat
    decreases slots.len(),
{
    if slots.len() == 0 {
        0
    } else {
        in_flight(slots.drop_last()) + if slots.last() is Some { 1nat } else { 0nat }
    }
}

/// The slots of a registry of this capacity, empty at first, once each of
/// `items` was offered to it in turn.
pub open spec fn offered<T>(capacity: nat, items: Seq<T>) -> Seq<Option<T>>
    decreases items.len(),
{
    if items.len() == 0 {
        Seq::empty()
    } else {
        added(offered(capacity, items.drop_last()), capacity, items.last()).0
    }
}

/// `first_free` names the least index whose slot is free: every slot before
/// it is taken, and it is the number of slots only when all are taken.
pub proof fn lemma_first_free_is_least<T>(slots: Seq<Option<T>>)
    ensures
        0 <= first_free(slots) <= slots.len(),
        forall|j: int| 0 <= j < first_free(slots) ==> (#[trigger] slots[j]) is Some,
        first_free(slots) < slots.len() ==> slots[first_free(slots)] is None,
    decreases slots.len(),
{
    if slots.len() > 0 && slots[0] is Some {
        let rest = slots.drop_first();
        lemma_first_free_is_least(rest);
        assert forall|j: int| 0 <= j < first_free(slots) implies (#[trigger] slots[j]) is Some by {
            if j > 0 {
                assert(slots[j] == rest[j - 1]);
            }
        }
        if first_free(slots) < slots.len() {
            assert(slots[first_free(slots)] == rest[first_free(rest)]);
        }
    }
}

/// Any index whose slot is free, or the number of slots, bounds `first_free`
/// from above.
pub proof fn lemma_first_free_at_most<T>(slots: Seq<Option<T>>, index: int)
    requires
        0 <= index <= slots.len(),
        index < slots.len() ==> slots[index] is None,
    ensures
        first_free(slots) <= index,
    decreases slots.len(),
{
    if slots.len() > 0 && slots[0] is Some {
        let rest = slots.drop_first();
        assert(index > 0);
        if index < slots.len() {
            assert(rest[index - 1] == slots[index]);
        }
        lemma_first_free_at_most(rest, index - 1);
    }
}

/// No registry holds more tasks than it has slots, and it holds as many
/// exactly when no slot is free.
pub proof fn lemma_in_flight_bounded<T>(slots: Seq<Option<T>>)
    ensures
        in_flight(slots) <= slots.len(),
        in_flight(slots) == slots.len() <==> first_free(slots) == slots.len(),
    decreases slots.len(),
{
    lemma_first_free_is_least(slots);
    if slots.len() > 0 {
        let front = slots.drop_last();
        lemma_in_flight_bounded(front);
        lemma_first_free_is_least(front);
        if slots.last() is Some && first_free(front) == front.len() {
            assert forall|j: int| 0 <= j < slots.len() implies (#[trigger] slots[j]) is Some by {
                if j < front.len() {
                    assert(slots[j] == front[j]);
                }
            }
            if first_free(slots) < slots.len() {
                assert(slots[first_free(slots)] is Some);
            }
        } else if slots.last() is Some {
            assert(front[first_free(front)] == slots[first_free(front)]);
            lemma_first_free_at_most(slots, first_free(front));
        } else {
            lemma_first_free_at_most(slots, slots.len() - 1);
        }
    }
}

/// Emptying or filling one slot changes the count of tasks by what that
/// slot held before and holds after.
pub proof fn lemma_in_flight_update<T>(slots: Seq<Option<T>>, index: int, entry: Option<T>)
    requires
        0 <= index < slots.len(),
    ensures
        in_flight(slots.update(index, entry)) + (if slots[index] is Some {
            1nat
        } else {
            0nat
        }) == in_flight(slots) + (if entry is Some {
            1nat
        } else {
            0nat
        }),
    decreases slots.len(),
{
    let after = slots.update(index, entry);
    if index == slots.len() - 1 {
        assert(after.drop_last() == slots.drop_last());
    } else {
        lemma_in_flight_update(slots.drop_last(), index, entry);
        assert(after.drop_last() == slots.drop_last().update(index, entry));
    }
}

/// A registry within its capacity is full exactly when it holds as many
/// tasks as its capacity. While it is not, an offer is taken: the item is
/// then held at the index returned, one task more is held than before, and
/// the registry stays within its capacity.
pub proof fn lemma_full_at_capacity<T>(slots: Seq<Option<T>>, capacity: nat, item: T)
    requires
        slots.len() <= capacity <= usize::MAX,
    ensures
        added(slots, capacity, item).1 is Err <==> in_flight(slots) == capacity,
        added(slots, capacity, item).1 matches Ok(index) ==> {
            let after = added(slots, capacity, item).0;
            &&& index == first_free(slots)
            &&& probe(slots, capacity) == Some(index)
            &&& after.len() <= capacity
            &&& in_flight(after) == in_flight(slots) + 1
            &&& held(after, index as int) == Some(item)
            &&& forall|other: int| other != index ==> held(after, other) == held(slots, other)
        },
{
    lemma_in_flight_bounded(slots);
    lemma_first_free_is_least(slots);
    if has_room(slots, capacity) {
        let index = first_free(slots);
        if index < slots.len() {
            lemma_in_flight_update(slots, index, Some(item));
        } else {
            assert(slots.push(Some(item)).drop_last() == slots);
        }
    }
}

/// Offering to an empty registry of capacity `items.len()` each of `items`
/// in turn stores every one of them, the k-th at index k. After that the
/// registry is full: an offer of `extra` returns `extra` and changes
/// nothing.
pub proof fn lemma_fills_to_capacity<T>(items: Seq<T>, extra: T)
    requires
        items.len() <= usize::MAX,
    ensures
        forall|k: int|
            0 <= k < items.len() ==> (#[trigger] added(
                offered(items.len(), items.take(k)),
                items.len(),
                items[k],
            )).1 == Ok::<usize, T>(k as usize),
        offered(items.len(), items) == items.map_values(|item: T| Some(item)),
        probe(offered(items.len(), items), items.len()) is None,
        added(offered(items.len(), items), items.len(), extra) == (
            offered(items.len(), items),
            Err::<usize, T>(extra),
        ),
{
    let capacity = items.len();
    assert forall|k: int| 0 <= k < items.len() implies (#[trigger] added(
        offered(capacity, items.take(k)),
        capacity,
        items[k],
    )).1 == Ok::<usize, T>(k as usize) by {
        lemma_offered_below_capacity(capacity, items.take(k));
    }
    lemma_offered_below_capacity(capacity, items);
}

/// Offering to an empty registry no more items than its capacity stores
/// every one of them, the k-th at index k, and leaves room exactly while
/// they are fewer than the capacity.
pub proof fn lemma_offered_below_capacity<T>(capacity: nat, items: Seq<T>)
    requires
        items.len() <= capacity,
    ensures
        offered(capacity, items) == items.map_values(|item: T| Some(item)),
        first_free(offered(capacity, items)) == items.len(),
        has_room(offered(capacity, items), capacity) <==> items.len() < capacity,
    decreases items.len(),
{
    let all = items.map_values(|item: T| Some(item));
    if items.len() > 0 {
        let front = items.drop_last();
        lemma_offered_below_capacity(capacity, front);
        let before = offered(capacity, front);
        assert(has_room(before, capacity));
        assert(stored(before, first_free(before), items.last()) == all);
    }
    lemma_first_free_is_least(all);
    if first_free(all) < all.len() {
        assert(all[first_free(all)] is Some);
    }
}

/// Taking a task out and offering another at once stores the new one in a
/// slot that already existed, at or before the index just freed: no slot is
/// added while one is free. Where no other slot was free, it is the very
/// index that was freed.
pub proof fn lemma_freed_slot_is_reused<T>(
    slots: Seq<Option<T>>,
    capacity: nat,
    index: int,
    item: T,
)
    requires
        0 <= index < slots.len() <= usize::MAX,
    ensures
        added(emptied(slots, index), capacity, item).1 matches Ok(at) && at <= index,
        added(emptied(slots, index), capacity, item).0.len() == slots.len(),
        first_free(slots) >= index ==> added(emptied(slots, index), capacity, item) == (
            slots.update(index, Some(item)),
            Ok::<usize, T>(index as usize),
        ),
{
    let freed = emptied(slots, index);
    lemma_first_free_at_most(freed, index);
    lemma_first_free_is_least(freed);
    lemma_first_free_is_least(slots);
    if first_free(slots) >= index && first_free(freed) < index {
        assert(freed[first_free(freed)] == slots[first_free(freed)]);
    }
}

/// Taking from the same index a second time yields nothing and changes
/// nothing.
pub proof fn lemma_take_twice<T>(slots: Seq<Option<T>>, index: int)
    ensures
        held(emptied(slots, index), index) is None,
        emptied(emptied(slots, index), index) == emptied(slots, index),
{
}

/// A registry of at most `capacity()` tasks. Its view is the sequence of
/// its slots, each free or holding one task; it never has more slots than
/// its capacity. The index of a slot stays the same while the slot holds
/// its task, and is given out again once the task is taken.
pub struct Buffer<T> {
    size: usize,
    buffer: Vec<Option<T>>,
}

impl<T> View for Buffer<T> {
    type V = Seq<Option<T>>;

    closed spec fn view(&self) -> Seq<Option<T>> {
        self.buffer@
    }
}

impl<T> Buffer<T> {
    #[verifier::type_invariant]
    spec fn within_capacity(self) -> bool {
        self.buffer@.len() <= self.size
    }

    /// The largest number of tasks the registry holds at once.
    pub closed spec fn capacity(&self) -> nat {
        self.size as nat
    }

    /// An empty registry for at most `size` tasks.
    pub fn new(size: usize) -> (r: Self)
        ensures
            r@ == Seq::<Option<T>>::empty(),
            r.capacity() == size,
    {
        Self { size, buffer: Vec::new() }
    }

    fn scan(&self) -> (i: usize)
        ensures
            i == first_free(self@),
            i <= self@.len(),
    {
        let n = self.buffer.len();
        let mut i: usize = 0;
        assert(self.buffer@.skip(0) == self.buffer@);
        while i < n && self.buffer[i].is_some()
            invariant
                n == self.buffer@.len(),
                i <= n,
                first_free(self.buffer@) == i + first_free(self.buffer@.skip(i as int)),
            decreases n - i,
        {
            proof {
                let rest = self.buffer@.skip(i as int);
                assert(rest.drop_first() == self.buffer@.skip(i + 1));
            }
            i += 1;
        }
        i
    }

    /// The index that the next call of `try_add` stores at, if it has room.
    pub fn get_index(&self) -> (r: Option<usize>)
        ensures
            self@.len() <= self.capacity(),
            r == probe(self@, self.capacity()),
    {
        proof {
            use_type_invariant(self);
        }
        let i = self.scan();
        if i < self.buffer.len() || self.buffer.len() < self.size {
            Some(i)
        } else {
            None
        }
    }

    /// Stores `item` in the first free slot, or in a new slot while fewer
    /// than `capacity` exist, and returns that slot's index. A full registry
    /// hands the item back and stays as it is.
    pub fn try_add(&mut self, item: T) -> (r: Result<usize, T>)
        ensures
            final(self).capacity() == old(self).capacity(),
            final(self)@.len() <= final(self).capacity(),
            (final(self)@, r) == added(old(self)@, old(self).capacity(), item),
    {
        proof {
            use_type_invariant(&*self);
        }
        let index = self.scan();
        if index < self.buffer.len() {
            self.buffer[index] = Some(item);
            Ok(index)
        } else if self.buffer.len() < self.size {
            let mut slots = Vec::new();
            core::mem::swap(&mut slots, &mut self.buffer);
            slots.push(Some(item));
            self.buffer = slots;
            Ok(index)
        } else {
            Err(item)
        }
    }

    /// Removes the task at `index` and returns it, leaving the slot free.
    /// Returns nothing for an index out of range or a free slot.
    pub fn try_take(&mut self, index: usize) -> (r: Option<T>)
        ensures
            final(self).capacity() == old(self).capacity(),
            final(self)@.len() <= final(self).capacity(),
            r == held(old(self)@, index as int),
            final(self)@ == emptied(old(self)@, index as int),
    {
        proof {
            use_type_invariant(&*self);
        }
        if index < self.buffer.len() {
            let taken = self.buffer[index].take();
            assert(self.buffer@ == emptied(old(self).buffer@, index as int));
            taken
        } else {
            None
        }
    }

    /// The task at `index`, left in place. Returns nothing for an index out
    /// of range or a free slot.
    pub fn get_ref(&self, index: usize) -> (r: Option<&T>)
        ensures
            self@.len() <= self.capacity(),
            r is Some <==> held(self@, index as int) is Some,
            r matches Some(task) ==> held(self@, index as int) == Some(*task),
    {
        proof {
            use_type_invariant(self);
        }
        if index < self.buffer.len() {
            self.buffer[index].as_ref()
        } else {
            None
        }
    }

    /// Drops every task and every slot.
    pub fn clear(&mut self)
        ensures
            final(self).capacity() == old(self).capacity(),
            final(self)@ == Seq::<Option<T>>::empty(),
    {
        let mut slots = Vec::new();
        core::mem::swap(&mut slots, &mut self.buffer);
        slots.clear();
        self.buffer = slots;
    }
}

} // verus!
