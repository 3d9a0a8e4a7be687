use vstd::prelude::*;

use crate::free_pointer::FreePointer;
use crate::generation::Generation;
use crate::generation::next_generation_value;

verus! {

/// Relies on `Vec::capacity`: the number of elements the vector has room
/// for without reallocating, which is never below its length.
#[verifier::external_body]
fn vec_capacity<T>(v: &Vec<T>) -> (r: usize)
    ensures
        r >= v@.len(),
{
    v.capacity()
}

/// Handle for a value stored in an [`Arena`]: the slot the value lives in,
/// plus the generation the slot had when the handle was issued. A handle
/// resolves only while its generation still matches the slot's.
///
/// Indices are totally ordered by slot, then generation; the order carries
/// no meaning beyond determinism in ordered containers.
#[derive(Clone, Copy, Debug, Hash, Ord)]
pub struct Index {
    pub slot: u32,
    pub generation: Generation,
}

impl Index {
    /// Pack this index into a single 64-bit value: the generation in the
    /// high 32 bits, the slot in the low 32 bits. Useful for passing a
    /// handle across a boundary that cannot carry rich types.
    pub fn to_bits(self) -> (r: u64)
        ensures
            r == ((self.generation@ as u64) << 32) | (self.slot as u64),
    {
        ((self.generation.to_u32() as u64) << 32) | (self.slot as u64)
    }

    /// Unpack a value produced by [`Index::to_bits`]. A value whose high 32
    /// bits are all zero carries generation zero, which no index ever has:
    /// such a value was not produced by an arena and is refused.
    pub fn from_bits(bits: u64) -> (r: Index)
        requires
            bits >> 32 != 0,
        ensures
            r.slot == bits as u32,
            r.generation@ == (bits >> 32) as u32,
    {
        proof {
            assert(bits >> 32 != 0 ==> (bits >> 32) as u32 != 0) by (bit_vector);
        }
        let generation = Generation::from_u32((bits >> 32) as u32);
        let slot = bits as u32;
        Index { slot, generation }
    }

    /// The slot this index points at, discarding the generation. Slots are
    /// reused after removal, so a slot alone does not identify a value.
    pub fn slot(self) -> (r: u32)
        ensures
            r == self.slot,
    {
        self.slot
    }
}

impl PartialEq for Index {
    fn eq(&self, other: &Index) -> bool {
        self.slot == other.slot && self.generation == other.generation
    }
}

impl vstd::std_specs::cmp::PartialEqSpecImpl for Index {
    open spec fn obeys_eq_spec() -> bool {
        true
    }

    open spec fn eq_spec(&self, other: &Index) -> bool {
        self.slot == other.slot && self.generation@ == other.generation@
    }
}

impl Eq for Index {
}

impl PartialOrd for Index {
    fn partial_cmp(&self, other: &Index) -> Option<core::cmp::Ordering> {
        if self.slot < other.slot {
            Some(core::cmp::Ordering::Less)
        } else if self.slot > other.slot {
            Some(core::cmp::Ordering::Greater)
        } else {
            self.generation.partial_cmp(&other.generation)
        }
    }
}

impl vstd::std_specs::cmp::PartialOrdSpecImpl for Index {
    open spec fn obeys_partial_cmp_spec() -> bool {
        true
    }

    open spec fn partial_cmp_spec(&self, other: &Index) -> Option<core::cmp::Ordering> {
        if self.slot < other.slot {
            Some(core::cmp::Ordering::Less)
        } else if self.slot > other.slot {
            Some(core::cmp::Ordering::Greater)
        } else if self.generation@ < other.generation@ {
            Some(core::cmp::Ordering::Less)
        } else if self.generation@ == other.generation@ {
            Some(core::cmp::Ordering::Equal)
        } else {
            Some(core::cmp::Ordering::Greater)
        }
    }
}

/// What one slot of the arena holds, as contracts see it: the slot's current
/// generation, and its value if the slot is occupied.
pub struct SlotModel<T> {
    pub generation: u32,
    pub content: Option<T>,
}

#[derive(Clone)]
pub(crate) enum Entry<T> {
    Occupied(OccupiedEntry<T>),
    Empty(EmptyEntry),
}

#[derive(Clone)]
pub(crate) struct OccupiedEntry<T> {
    pub(crate) generation: Generation,
    pub(crate) value: T,
}

#[derive(Clone, Copy)]
pub(crate) struct EmptyEntry {
    pub(crate) generation: Generation,
    pub(crate) next_free: Option<FreePointer>,
}

pub(crate) open spec fn entry_model<T>(e: Entry<T>) -> SlotModel<T> {
    match e {
        Entry::Occupied(occ) => SlotModel { generation: occ.generation@, content: Some(occ.value) },
        Entry::Empty(em) => SlotModel { generation: em.generation@, content: None },
    }
}

pub(crate) open spec fn slots_model<T>(st: Seq<Entry<T>>) -> Seq<SlotModel<T>> {
    Seq::new(st.len(), |i: int| entry_model(st[i]))
}

/// The number of occupied slots in a slot-model sequence.
pub open spec fn occupied_count<T>(s: Seq<SlotModel<T>>) -> nat
    decreases s.len(),
{
    if s.len() == 0 {
        0
    } else {
        occupied_count(s.drop_last()) + if s.last().content is Some {
            1nat
        } else {
            0nat
        }
    }
}

/// The positions of the vacant slots in a slot-model sequence.
pub open spec fn vacant_positions<T>(s: Seq<SlotModel<T>>) -> Set<int> {
    Set::new(|i: int| 0 <= i < s.len() && s[i].content is None)
}

/// Occupied and vacant slots partition the storage.
proof fn lemma_occupied_count_complement<T>(s: Seq<SlotModel<T>>)
    ensures
        vacant_positions(s).finite(),
        vacant_positions(s).len() <= s.len(),
        occupied_count(s) == s.len() - vacant_positions(s).len(),
    decreases s.len(),
{
    broadcast use vstd::set::group_set_axioms;

    if s.len() == 0 {
        assert(vacant_positions(s) =~= Set::empty());
    } else {
        let p = s.drop_last();
        lemma_occupied_count_complement(p);
        if s.last().content is Some {
            assert(vacant_positions(s) =~= vacant_positions(p));
        } else {
            assert(vacant_positions(s) =~= vacant_positions(p).insert(s.len() - 1));
            assert(!vacant_positions(p).contains(s.len() - 1));
        }
    }
}

/// The slots below `n` that went from occupied in `pre` to vacant in
/// `post`, highest slot first: the order in which an ascending sweep that
/// vacates them stacks them onto the free list.
pub open spec fn swept_free_order<T>(
    pre: Seq<SlotModel<T>>,
    post: Seq<SlotModel<T>>,
    n: int,
) -> Seq<u32>
    decreases n,
{
    if n <= 0 {
        Seq::empty()
    } else {
        let rest = swept_free_order(pre, post, n - 1);
        if pre[n - 1].content is Some && post[n - 1].content is None {
            seq![(n - 1) as u32] + rest
        } else {
            rest
        }
    }
}

/// The swept free order reads only the slots below `n`, so it ignores what
/// happens to later slots.
proof fn lemma_swept_free_order_agrees<T>(
    pre: Seq<SlotModel<T>>,
    post1: Seq<SlotModel<T>>,
    post2: Seq<SlotModel<T>>,
    n: int,
)
    requires
        forall|i: int| 0 <= i < n ==> post1[i] == post2[i],
    ensures
        swept_free_order(pre, post1, n) == swept_free_order(pre, post2, n),
    decreases n,
{
    if n > 0 {
        lemma_swept_free_order_agrees(pre, post1, post2, n - 1);
    }
}

/// Bit-packing round-trip, encoding side: packing a generation and a slot
/// into one 64-bit value (generation high, slot low) and unpacking them
/// recovers both fields exactly, and a nonzero generation keeps the high
/// word nonzero, so every packed index can be decoded again.
pub proof fn lemma_bits_round_trip(generation: u32, slot: u32)
    ensures
        ((((generation as u64) << 32) | (slot as u64)) >> 32) as u32 == generation,
        (((generation as u64) << 32) | (slot as u64)) as u32 == slot,
        generation != 0 ==> (((generation as u64) << 32) | (slot as u64)) >> 32 != 0,
{
    assert(((((generation as u64) << 32) | (slot as u64)) >> 32) as u32 == generation)
        by (bit_vector);
    assert((((generation as u64) << 32) | (slot as u64)) as u32 == slot) by (bit_vector);
    assert(generation != 0 ==> (((generation as u64) << 32) | (slot as u64)) >> 32 != 0)
        by (bit_vector);
}

/// Bit-packing round-trip, decoding side: a 64-bit value decoded into a
/// generation and a slot and packed again is unchanged.
pub proof fn lemma_bits_decode_encode(bits: u64)
    ensures
        ((((bits >> 32) as u32) as u64) << 32) | ((bits as u32) as u64) == bits,
{
    assert(((((bits >> 32) as u32) as u64) << 32) | ((bits as u32) as u64) == bits)
        by (bit_vector);
}

/// A storage whose every slot is vacant has no occupied slots.
pub proof fn lemma_occupied_count_when_all_vacant<T>(s: Seq<SlotModel<T>>)
    requires
        forall|i: int| 0 <= i < s.len() ==> (#[trigger] s[i]).content is None,
    ensures
        occupied_count(s) == 0,
    decreases s.len(),
{
    if s.len() > 0 {
        lemma_occupied_count_when_all_vacant(s.drop_last());
    }
}

/// Updating one entry of the storage updates the corresponding slot of the
/// model and nothing else.
proof fn lemma_slots_model_update<T>(st: Seq<Entry<T>>, i: int, e: Entry<T>)
    requires
        0 <= i < st.len(),
    ensures
        slots_model(st.update(i, e)) == slots_model(st).update(i, entry_model(e)),
{
    assert(slots_model(st.update(i, e)) =~= slots_model(st).update(i, entry_model(e)));
}

/// Updates at two distinct positions commute.
proof fn lemma_update_commutes<A>(s: Seq<A>, a: int, b: int, x: A, y: A)
    requires
        0 <= a < s.len(),
        0 <= b < s.len(),
        a != b,
    ensures
        s.update(a, x).update(b, y) == s.update(b, y).update(a, x),
{
    assert(s.update(a, x).update(b, y) =~= s.update(b, y).update(a, x));
}

pub(crate) open spec fn entry_generation<T>(e: Entry<T>) -> Generation {
    match e {
        Entry::Occupied(occ) => occ.generation,
        Entry::Empty(em) => em.generation,
    }
}

pub(crate) open spec fn empty_next_pointer<T>(e: Entry<T>) -> Option<FreePointer> {
    match e {
        Entry::Empty(em) => em.next_free,
        Entry::Occupied(_) => None,
    }
}

pub(crate) open spec fn empty_next<T>(e: Entry<T>) -> Option<usize> {
    match e {
        Entry::Empty(em) => match em.next_free {
            Some(p) => Some(p@),
            None => None,
        },
        Entry::Occupied(_) => None,
    }
}

impl<T> Entry<T> {
    /// Consume the entry, and if it is occupied, return the value.
    fn into_value(self) -> (r: Option<T>)
        ensures
            r == entry_model(self).content,
    {
        match self {
            Entry::Occupied(occupied) => Some(occupied.value),
            Entry::Empty(_) => None,
        }
    }

    /// If the entry is empty, return a copy of the emptiness data.
    fn get_empty(&self) -> (r: Option<EmptyEntry>)
        ensures
            r matches Some(em) ==> *self == Entry::<T>::Empty(em),
            r is Some <==> *self is Empty,
    {
        match self {
            Entry::Empty(empty) => Some(*empty),
            Entry::Occupied(_) => None,
        }
    }
}

/// Mutable references to two distinct elements of one vector at once,
/// obtained by splitting the backing slice at the higher position.
fn two_entries_mut<'a, T>(v: &'a mut Vec<Entry<T>>, a: usize, b: usize) -> (r: (
    &'a mut Entry<T>,
    &'a mut Entry<T>,
))
    requires
        a < b < old(v)@.len(),
    ensures
        *r.0 == old(v)@[a as int],
        *r.1 == old(v)@[b as int],
        final(v)@ == old(v)@.update(a as int, *final(r.0)).update(b as int, *final(r.1)),
{
    let ghost pre = v@;
    let slice = v.as_mut_slice();
    let (lo, hi) = slice.split_at_mut(b);
    let (lo_head, lo_tail) = lo.split_at_mut(a);
    proof {
        assert(lo_head@ =~= pre.subrange(0, a as int));
        assert(lo_tail@ =~= pre.subrange(a as int, b as int));
        assert(hi@ =~= pre.subrange(b as int, pre.len() as int));
    }
    let ra = match lo_tail.first_mut() {
        Some(x) => x,
        None => vstd::pervasive::unreached(),
    };
    let rb = match hi.first_mut() {
        Some(x) => x,
        None => vstd::pervasive::unreached(),
    };
    proof {
        assert((pre.subrange(0, a as int) + pre.subrange(a as int, b as int).update(
            0,
            *final(ra),
        )) + pre.subrange(b as int, pre.len() as int).update(0, *final(rb)) =~= pre.update(
            a as int,
            *final(ra),
        ).update(b as int, *final(rb)));
    }
    (ra, rb)
}

/// Container that hands out generational indices for inserted values.
///
/// Values are stored in slots; removing a value vacates its slot, and the
/// slot is recycled by later insertions (most recently freed first) under an
/// advanced generation, so stale indices never resolve to a new occupant.
#[derive(Clone)]
pub struct Arena<T> {
    storage: Vec<Entry<T>>,
    len: u32,
    first_free: Option<FreePointer>,
    free: Ghost<Seq<u32>>,
}

impl<T> View for Arena<T> {
    type V = Seq<SlotModel<T>>;

    closed spec fn view(&self) -> Seq<SlotModel<T>> {
        slots_model(self.storage@)
    }
}

impl<T> Arena<T> {
    /// The number of live values in the arena.
    pub closed spec fn spec_len(self) -> nat {
        self.len as nat
    }

    /// The vacant slots available for reuse, most recently freed first: the
    /// next insertion fills the first slot listed here, or appends a new
    /// slot when no slot is listed.
    pub closed spec fn free_order(self) -> Seq<u32> {
        self.free@
    }

    /// An index resolves exactly while its slot is occupied under the same
    /// generation the index carries.
    pub open spec fn valid(self, index: Index) -> bool {
        &&& (index.slot as int) < self@.len()
        &&& self@[index.slot as int].content is Some
        &&& self@[index.slot as int].generation == index.generation@
    }

    /// The value an index resolves to, if it resolves at all.
    pub open spec fn spec_get(self, index: Index) -> Option<T> {
        if self.valid(index) {
            self@[index.slot as int].content
        } else {
            None
        }
    }

    /// The arena's internal invariant: the live count, the free list and
    /// the slot entries agree.
    ///
    /// The free list holds exactly the vacant slots, each once, in the
    /// order threaded through the entries' next-free pointers starting at
    /// the arena's head pointer; every generation is strictly positive; and
    /// slot numbers stay representable in 32 bits.
    pub closed spec fn wf(self) -> bool {
        &&& self.storage@.len() <= u32::MAX as int
        &&& self.len as int == self.storage@.len() - self.free@.len()
        &&& self.free@.no_duplicates()
        &&& forall|k: int|
            0 <= k < self.free@.len() ==> (#[trigger] self.free@[k] as int) < self.storage@.len()
                && self.storage@[self.free@[k] as int] is Empty
        &&& (self.free@.len() == 0 <==> self.first_free is None)
        &&& (self.free@.len() > 0 ==> (self.first_free matches Some(p) && p@ == self.free@[0] as usize))
        &&& forall|k: int|
            0 <= k < self.free@.len() ==> empty_next(#[trigger] self.storage@[self.free@[k] as int])
                == (if k + 1 < self.free@.len() {
                    Some(self.free@[k + 1] as usize)
                } else {
                    None::<usize>
                })
        &&& forall|s: int|
            0 <= s < self.storage@.len() && (#[trigger] self.storage@[s]) is Empty
                ==> self.free@.contains(s as u32)
        &&& forall|s: int| 0 <= s < self@.len() ==> (#[trigger] self@[s].generation) >= 1
    }

    /// Construct an empty arena.
    pub fn new() -> (r: Arena<T>)
        ensures
            r.wf(),
            r@ == Seq::<SlotModel<T>>::empty(),
            r.spec_len() == 0,
            r.free_order() == Seq::<u32>::empty(),
    {
        let r = Arena { storage: Vec::new(), len: 0, first_free: None, free: Ghost(Seq::empty()) };
        proof {
            assert(r@ =~= Seq::<SlotModel<T>>::empty());
        }
        r
    }

    /// Construct an empty arena with room for at least `capacity` elements
    /// before its storage reallocates.
    pub fn with_capacity(capacity: usize) -> (r: Arena<T>)
        ensures
            r.wf(),
            r@ == Seq::<SlotModel<T>>::empty(),
            r.spec_len() == 0,
            r.free_order() == Seq::<u32>::empty(),
    {
        let r = Arena {
            storage: Vec::with_capacity(capacity),
            len: 0,
            first_free: None,
            free: Ghost(Seq::empty()),
        };
        proof {
            assert(r@ =~= Seq::<SlotModel<T>>::empty());
        }
        r
    }

    /// The number of live values in the arena.
    pub fn len(&self) -> (r: usize)
        ensures
            r == self.spec_len(),
    {
        self.len as usize
    }

    /// The number of elements the arena can hold without reallocating,
    /// counting the slots already in use.
    pub fn capacity(&self) -> (r: usize)
        ensures
            r >= self@.len(),
    {
        vec_capacity(&self.storage)
    }

    /// Whether the arena holds no live values.
    pub fn is_empty(&self) -> (r: bool)
        ensures
            r <==> self.spec_len() == 0,
    {
        self.len == 0
    }

    /// Insert a value, returning the index under which it can be retrieved.
    ///
    /// The most recently freed slot is reused first, under the successor of
    /// the generation it last held; only when no freed slot is available
    /// does the arena append a brand-new slot at the first generation.
    pub fn insert(&mut self, value: T) -> (index: Index)
        requires
            old(self).wf(),
            old(self).spec_len() < u32::MAX,
        ensures
            final(self).wf(),
            final(self).spec_len() == old(self).spec_len() + 1,
            final(self).valid(index),
            final(self).spec_get(index) == Some(value),
            index.generation@ >= 1,
            old(self).free_order().len() > 0 ==> {
                &&& index.slot == old(self).free_order()[0]
                &&& index.generation@ == next_generation_value(
                    old(self)@[index.slot as int].generation,
                )
                &&& final(self)@ == old(self)@.update(
                    index.slot as int,
                    (SlotModel { generation: index.generation@, content: Some(value) }),
                )
                &&& final(self).free_order() == old(self).free_order().drop_first()
            },
            old(self).free_order().len() == 0 ==> {
                &&& index.slot as int == old(self)@.len()
                &&& index.generation@ == 1
                &&& final(self)@ == old(self)@.push(
                    (SlotModel { generation: 1u32, content: Some(value) }),
                )
                &&& final(self).free_order() == old(self).free_order()
            },
    {
        self.len = self.len + 1;

        if let Some(free_pointer) = self.first_free {
            let slot = free_pointer.slot();
            let ghost old_free = self.free@;

            let empty = self.storage[slot].get_empty().unwrap();
            self.first_free = empty.next_free;

            let generation = empty.generation.next();
            self.storage[slot] = Entry::Occupied(OccupiedEntry { generation, value });
            self.free = Ghost(old_free.drop_first());

            let index = Index { slot: slot as u32, generation };
            proof {
                self.lemma_insert_reuse_wf(*old(self), old_free, index);
            }
            index
        } else {
            let generation = Generation::first();
            let slot = self.storage.len();
            self.storage.push(Entry::Occupied(OccupiedEntry { generation, value }));

            let index = Index { slot: slot as u32, generation };
            proof {
                assert(self@ =~= old(self)@.push(
                    (SlotModel { generation: 1u32, content: Some(value) }),
                ));
            }
            index
        }
    }

    /// Whether the given index currently resolves in this arena.
    pub fn contains(&self, index: Index) -> (r: bool)
        ensures
            r == self.valid(index),
    {
        self.get(index).is_some()
    }

    /// If the given slot is occupied, return the index that currently
    /// resolves to it (slot plus its present generation), ignoring any
    /// generation the caller may have lost.
    pub fn contains_slot(&self, slot: u32) -> (r: Option<Index>)
        ensures
            r is Some <==> ((slot as int) < self@.len() && self@[slot as int].content is Some),
            r matches Some(i) ==> i.slot == slot && i.generation@ == self@[slot as int].generation
                && self.valid(i),
    {
        if (slot as usize) < self.storage.len() {
            match &self.storage[slot as usize] {
                Entry::Occupied(occupied) => Some(
                    Index { slot, generation: occupied.generation },
                ),
                Entry::Empty(_) => None,
            }
        } else {
            None
        }
    }

    /// Get a reference to the value the index resolves to, or `None` if the
    /// index is stale or out of range.
    pub fn get(&self, index: Index) -> (r: Option<&T>)
        ensures
            r is Some <==> self.valid(index),
            r matches Some(v) ==> self.spec_get(index) == Some(*v),
    {
        if (index.slot as usize) < self.storage.len() {
            match &self.storage[index.slot as usize] {
                Entry::Occupied(occupied) => {
                    if occupied.generation == index.generation {
                        Some(&occupied.value)
                    } else {
                        None
                    }
                },
                Entry::Empty(_) => None,
            }
        } else {
            None
        }
    }

    /// Look up a slot directly, ignoring generations, and return the slot's
    /// current true index alongside a reference to its value if occupied.
    pub fn get_by_slot(&self, slot: u32) -> (r: Option<(Index, &T)>)
        ensures
            r is Some <==> ((slot as int) < self@.len() && self@[slot as int].content is Some),
            r matches Some(p) ==> p.0.slot == slot && p.0.generation@ == self@[slot as int].generation
                && self.valid(p.0) && self@[slot as int].content == Some(*p.1),
    {
        if (slot as usize) < self.storage.len() {
            match &self.storage[slot as usize] {
                Entry::Occupied(occupied) => {
                    let index = Index { slot, generation: occupied.generation };
                    Some((index, &occupied.value))
                },
                Entry::Empty(_) => None,
            }
        } else {
            None
        }
    }

    /// Get a mutable reference to the value the index resolves to, or
    /// `None` if the index is stale or out of range.
    pub fn get_mut(&mut self, index: Index) -> (r: Option<&mut T>)
        ensures
            r is Some <==> old(self).valid(index),
            r is None ==> final(self)@ == old(self)@ && final(self).free_order() == old(self).free_order() && final(self).spec_len() == old(self).spec_len(),
            r is Some ==> old(self).spec_get(index) == Some(*r.unwrap()) && final(self)@ == old(self)@.update(
                index.slot as int,
                (SlotModel { generation: index.generation@, content: Some(*final(r.unwrap())) }),
            ) && final(self).free_order() == old(self).free_order() && final(self).spec_len()
                == old(self).spec_len(),
            old(self).wf() ==> final(self).wf(),
    {
        if !self.contains(index) {
            return None;
        }
        let entry = &mut self.storage[index.slot as usize];
        let value_ref = match entry {
            Entry::Occupied(occupied) => &mut occupied.value,
            Entry::Empty(_) => vstd::pervasive::unreached(),
        };
        Some(value_ref)
    }

    /// Look up a slot directly, ignoring generations, and return the slot's
    /// current true index alongside a mutable reference to its value if
    /// occupied.
    pub fn get_by_slot_mut(&mut self, slot: u32) -> (r: Option<(Index, &mut T)>)
        ensures
            r is Some <==> ((slot as int) < old(self)@.len() && old(self)@[slot as int].content
                is Some),
            r is None ==> final(self)@ == old(self)@ && final(self).free_order() == old(self).free_order() && final(self).spec_len() == old(self).spec_len(),
            r is Some ==> r.unwrap().0.slot == slot && r.unwrap().0.generation@ == old(self)@[slot as int].generation && old(self)@[slot as int].content == Some(*r.unwrap().1)
                && final(self)@ == old(self)@.update(
                slot as int,
                (SlotModel {
                    generation: old(self)@[slot as int].generation,
                    content: Some(*final(r.unwrap().1)),
                }),
            ) && final(self).free_order() == old(self).free_order() && final(self).spec_len()
                == old(self).spec_len(),
            old(self).wf() ==> final(self).wf(),
    {
        match self.contains_slot(slot) {
            None => None,
            Some(index) => {
                let entry = &mut self.storage[slot as usize];
                let value_ref = match entry {
                    Entry::Occupied(occupied) => &mut occupied.value,
                    Entry::Empty(_) => vstd::pervasive::unreached(),
                };
                Some((index, value_ref))
            },
        }
    }

    /// Get mutable references to two values at once. The two indices must
    /// not be equal: two live mutable references to one value can never be
    /// handed out. Indices naming different slots resolve independently; two
    /// indices naming the same slot under different generations can satisfy
    /// at most one request, the other comes back absent.
    pub fn get2_mut(&mut self, index1: Index, index2: Index) -> (r: (
        Option<&mut T>,
        Option<&mut T>,
    ))
        requires
            !(index1.slot == index2.slot && index1.generation@ == index2.generation@),
        ensures
            r.0 is Some <==> old(self).valid(index1),
            r.1 is Some <==> old(self).valid(index2),
            r.0 is Some ==> old(self).spec_get(index1) == Some(*r.0.unwrap()),
            r.1 is Some ==> old(self).spec_get(index2) == Some(*r.1.unwrap()),
            final(self)@ == ({
                let mid = if old(self).valid(index1) {
                    old(self)@.update(
                        index1.slot as int,
                        (SlotModel {
                            generation: index1.generation@,
                            content: Some(*final(r.0.unwrap())),
                        }),
                    )
                } else {
                    old(self)@
                };
                if old(self).valid(index2) {
                    mid.update(
                        index2.slot as int,
                        (SlotModel {
                            generation: index2.generation@,
                            content: Some(*final(r.1.unwrap())),
                        }),
                    )
                } else {
                    mid
                }
            }),
            final(self).free_order() == old(self).free_order(),
            final(self).spec_len() == old(self).spec_len(),
            old(self).wf() ==> final(self).wf(),
    {
        if index1.slot == index2.slot {
            // One slot holds one generation, so at most one index resolves.
            if self.contains(index1) {
                (self.get_mut(index1), None)
            } else {
                (None, self.get_mut(index2))
            }
        } else {
            let valid1 = self.contains(index1);
            let valid2 = self.contains(index2);
            if valid1 && valid2 {
                let ghost pre = *self;
                let (first, second, swapped) = if index1.slot < index2.slot {
                    (index1, index2, false)
                } else {
                    (index2, index1, true)
                };
                let (ra, rb) = two_entries_mut(
                    &mut self.storage,
                    first.slot as usize,
                    second.slot as usize,
                );
                let va = match ra {
                    Entry::Occupied(occupied) => &mut occupied.value,
                    Entry::Empty(_) => vstd::pervasive::unreached(),
                };
                let vb = match rb {
                    Entry::Occupied(occupied) => &mut occupied.value,
                    Entry::Empty(_) => vstd::pervasive::unreached(),
                };
                proof {
                    let a = first.slot as int;
                    let b = second.slot as int;
                    let e1 = Entry::Occupied(
                        OccupiedEntry {
                            generation: entry_generation(pre.storage@[a]),
                            value: *final(va),
                        },
                    );
                    let e2 = Entry::Occupied(
                        OccupiedEntry {
                            generation: entry_generation(pre.storage@[b]),
                            value: *final(vb),
                        },
                    );
                    lemma_slots_model_update(pre.storage@, a, e1);
                    lemma_slots_model_update(pre.storage@.update(a, e1), b, e2);
                    lemma_update_commutes(
                        slots_model(pre.storage@),
                        a,
                        b,
                        entry_model(e1),
                        entry_model(e2),
                    );
                }
                if swapped {
                    (Some(vb), Some(va))
                } else {
                    (Some(va), Some(vb))
                }
            } else if valid1 {
                (self.get_mut(index1), None)
            } else {
                (None, self.get_mut(index2))
            }
        }
    }

    /// Remove the value at the given index, returning it if the index still
    /// resolved. On a stale or out-of-range index the arena is unchanged.
    ///
    /// The vacated slot keeps its generation (it advances at reuse, not at
    /// removal) and becomes the next slot to be recycled.
    pub fn remove(&mut self, index: Index) -> (r: Option<T>)
        requires
            old(self).wf(),
        ensures
            final(self).wf(),
            r == old(self).spec_get(index),
            r is Some <==> old(self).valid(index),
            r is None ==> final(self)@ == old(self)@ && final(self).free_order() == old(self).free_order() && final(self).spec_len() == old(self).spec_len(),
            old(self).valid(index) ==> final(self)@ == old(self)@.update(
                index.slot as int,
                (SlotModel { generation: index.generation@, content: None::<T> }),
            ) && final(self).free_order() == seq![index.slot] + old(self).free_order() && final(self).spec_len() == old(self).spec_len() - 1 && !final(self).valid(index),
    {
        if self.contains(index) {
            let removed = self.remove_by_slot(index.slot);
            Some(removed.unwrap().1)
        } else {
            None
        }
    }

    /// Remove whatever value occupies the given slot, ignoring generations.
    /// Returns the index that was valid for the slot alongside the value, so
    /// callers can observe what was erased.
    pub fn remove_by_slot(&mut self, slot: u32) -> (r: Option<(Index, T)>)
        requires
            old(self).wf(),
        ensures
            final(self).wf(),
            r is Some <==> ((slot as int) < old(self)@.len() && old(self)@[slot as int].content
                is Some),
            r is None ==> final(self)@ == old(self)@ && final(self).free_order() == old(self).free_order() && final(self).spec_len() == old(self).spec_len(),
            r is Some ==> r.unwrap().0.slot == slot && r.unwrap().0.generation@ == old(self)@[slot as int].generation && old(self)@[slot as int].content == Some(r.unwrap().1)
                && old(self).valid(r.unwrap().0) && final(self)@ == old(self)@.update(
                slot as int,
                (SlotModel { generation: old(self)@[slot as int].generation, content: None::<T> }),
            ) && final(self).free_order() == seq![slot] + old(self).free_order() && final(self).spec_len() == old(self).spec_len() - 1,
    {
        if (slot as usize) >= self.storage.len() {
            return None;
        }
        let occupied_here = match &self.storage[slot as usize] {
            Entry::Occupied(_) => true,
            Entry::Empty(_) => false,
        };
        if !occupied_here {
            return None;
        }
        proof {
            self.lemma_occupied_implies_live(slot as int);
        }

        let ghost pre = *self;
        let first_free = self.first_free;
        let entry = &mut self.storage[slot as usize];
        match entry {
            Entry::Occupied(occupied) => {
                let generation = occupied.generation;
                let index = Index { slot, generation };

                let mut taken = Entry::Empty(EmptyEntry { generation, next_free: first_free });
                core::mem::swap(&mut taken, entry);
                let value = taken.into_value().unwrap();

                self.first_free = Some(FreePointer::from_slot(slot as usize));
                self.len = self.len - 1;
                self.free = Ghost(seq![slot] + pre.free@);
                proof {
                    self.lemma_vacate_wf(pre, slot);
                }
                Some((index, value))
            },
            Entry::Empty(_) => {
                // Ruled out by the occupancy check above.
                None
            },
        }
    }

    /// Retire the given index while keeping its value in place: the slot's
    /// generation advances and a fresh index to the same value is returned.
    /// Equivalent in effect to removing and reinserting the value, but the
    /// value does not move and the free list is untouched. Returns `None`,
    /// changing nothing, if the index no longer resolves.
    pub fn invalidate(&mut self, index: Index) -> (r: Option<Index>)
        ensures
            r is Some <==> old(self).valid(index),
            r is None ==> final(self)@ == old(self)@ && final(self).free_order() == old(self).free_order() && final(self).spec_len() == old(self).spec_len(),
            r is Some ==> r.unwrap().slot == index.slot && r.unwrap().generation@
                == next_generation_value(index.generation@) && final(self)@ == old(self)@.update(
                index.slot as int,
                (SlotModel {
                    generation: next_generation_value(index.generation@),
                    content: old(self)@[index.slot as int].content,
                }),
            ) && final(self).free_order() == old(self).free_order() && final(self).spec_len()
                == old(self).spec_len() && final(self).valid(r.unwrap()) && !final(self).valid(
                index,
            ),
            old(self).wf() ==> final(self).wf(),
    {
        let ghost pre = *self;
        if (index.slot as usize) >= self.storage.len() {
            return None;
        }
        let entry = &mut self.storage[index.slot as usize];
        match entry {
            Entry::Occupied(occupied) => {
                if occupied.generation == index.generation {
                    let generation = occupied.generation.next();
                    occupied.generation = generation;
                    proof {
                        assert(self@ =~= pre@.update(
                            index.slot as int,
                            (SlotModel {
                                generation: next_generation_value(index.generation@),
                                content: pre@[index.slot as int].content,
                            }),
                        ));
                    }
                    Some(Index { slot: index.slot, generation })
                } else {
                    proof {
                        assert(self@ =~= pre@);
                    }
                    None
                }
            },
            Entry::Empty(_) => {
                proof {
                    assert(self@ =~= pre@);
                }
                None
            },
        }
    }

    /// Remove every value whose slot the predicate rejects. The predicate
    /// sees each occupied slot's current index and value, in ascending slot
    /// order; slots it rejects undergo the same transition as a removal
    /// (generation kept, slot pushed onto the free list), slots it accepts
    /// are left untouched.
    #[verifier::rlimit(100)]
    #[verifier::spinoff_prover]
    pub fn retain<F: Fn(Index, &T) -> bool>(&mut self, f: F)
        requires
            old(self).wf(),
            forall|i: Index, v: &T| #[trigger] call_requires(f, (i, v)),
        ensures
            final(self).wf(),
            final(self)@.len() == old(self)@.len(),
            final(self).spec_len() <= old(self).spec_len(),
            forall|s: int|
                0 <= s < old(self)@.len() && old(self)@[s].content is None ==> final(self)@[s]
                    == old(self)@[s],
            forall|s: int|
                0 <= s < old(self)@.len() && old(self)@[s].content is Some
                    ==> exists|i: Index, keep: bool|
                    {
                        &&& i.slot == s as u32
                        &&& i.generation@ == old(self)@[s].generation
                        &&& #[trigger] call_ensures(f, (i, &old(self)@[s].content.unwrap()), keep)
                        &&& final(self)@[s] == (if keep {
                            old(self)@[s]
                        } else {
                            SlotModel { generation: old(self)@[s].generation, content: None::<T> }
                        })
                    },
            final(self).free_order() == swept_free_order(
                old(self)@,
                final(self)@,
                old(self)@.len() as int,
            ) + old(self).free_order(),
    {
        let n = self.storage.len();
        let mut s: usize = 0;
        while s < n
            invariant
                self.wf(),
                n == self@.len(),
                self@.len() == old(self)@.len(),
                self.spec_len() <= old(self).spec_len(),
                s <= n,
                forall|i: Index, v: &T| #[trigger] call_requires(f, (i, v)),
                forall|t: int| s <= t < n ==> self@[t] == old(self)@[t],
                self.free_order() == swept_free_order(old(self)@, self@, s as int) + old(
                    self,
                ).free_order(),
                forall|t: int|
                    0 <= t < s && old(self)@[t].content is None ==> self@[t] == old(self)@[t],
                forall|t: int|
                    0 <= t < s && old(self)@[t].content is Some ==> exists|i: Index, keep: bool|
                        {
                            &&& i.slot == t as u32
                            &&& i.generation@ == old(self)@[t].generation
                            &&& #[trigger] call_ensures(
                                f,
                                (i, &old(self)@[t].content.unwrap()),
                                keep,
                            )
                            &&& self@[t] == (if keep {
                                old(self)@[t]
                            } else {
                                SlotModel {
                                    generation: old(self)@[t].generation,
                                    content: None::<T>,
                                }
                            })
                        },
            decreases n - s,
        {
            let ghost view_at_start = self@;
            let ghost mut wit_index: Index = vstd::pervasive::arbitrary();
            let ghost mut wit_keep: bool = true;
            let kept: bool = match self.get_by_slot(s as u32) {
                Some((index, value_ref)) => {
                    let k = f(index, value_ref);
                    proof {
                        wit_index = index;
                        wit_keep = k;
                    }
                    k
                },
                None => true,
            };
            if !kept {
                self.remove_by_slot(s as u32);
            }
            proof {
                if old(self)@[s as int].content is Some {
                    assert(call_ensures(
                        f,
                        (wit_index, &old(self)@[s as int].content.unwrap()),
                        wit_keep,
                    ));
                    assert(self@[s as int] == (if wit_keep {
                        old(self)@[s as int]
                    } else {
                        SlotModel { generation: old(self)@[s as int].generation, content: None::<T> }
                    }));
                }
                lemma_swept_free_order_agrees(old(self)@, view_at_start, self@, s as int);
                if old(self)@[s as int].content is Some && self@[s as int].content is None {
                    assert(self.free_order() =~= swept_free_order(old(self)@, self@, s + 1 as int)
                        + old(self).free_order());
                }
            }
            s = s + 1;
        }
    }

    /// Drop every value: the arena becomes empty, every slot vacant under
    /// its old generation, with storage (and so capacity) retained.
    pub fn clear(&mut self)
        requires
            old(self).wf(),
        ensures
            final(self).wf(),
            final(self)@.len() == old(self)@.len(),
            final(self).spec_len() == 0,
            forall|s: int|
                0 <= s < old(self)@.len() ==> final(self)@[s] == (SlotModel {
                    generation: old(self)@[s].generation,
                    content: None::<T>,
                }),
            final(self).free_order() == swept_free_order(
                old(self)@,
                final(self)@,
                old(self)@.len() as int,
            ) + old(self).free_order(),
    {
        let n = self.storage.len();
        let mut s: usize = 0;
        while s < n
            invariant
                self.wf(),
                n == self@.len(),
                self@.len() == old(self)@.len(),
                s <= n,
                forall|t: int|
                    0 <= t < s ==> self@[t] == (SlotModel {
                        generation: old(self)@[t].generation,
                        content: None::<T>,
                    }),
                forall|t: int| s <= t < n ==> self@[t] == old(self)@[t],
                self.free_order() == swept_free_order(old(self)@, self@, s as int) + old(
                    self,
                ).free_order(),
            decreases n - s,
        {
            let ghost view_at_start = self@;
            self.remove_by_slot(s as u32);
            proof {
                lemma_swept_free_order_agrees(old(self)@, view_at_start, self@, s as int);
                if old(self)@[s as int].content is Some && self@[s as int].content is None {
                    assert(self.free_order() =~= swept_free_order(old(self)@, self@, s + 1 as int)
                        + old(self).free_order());
                }
            }
            s = s + 1;
        }
        proof {
            assert(forall|t: int| 0 <= t < self@.len() ==> (#[trigger] self@[t]).content is None);
            self.lemma_len_counts_occupied();
            lemma_occupied_count_when_all_vacant(self@);
        }
    }

    /// The live count of a well-formed arena equals the number of occupied
    /// slots in its storage.
    pub proof fn lemma_len_counts_occupied(self)
        requires
            self.wf(),
        ensures
            self.spec_len() == occupied_count(self@),
    {
        broadcast use vstd::set::group_set_axioms;

        let n = self.storage@.len() as int;
        let m = self.free@.map_values(|x: u32| x as int);
        assert(m.no_duplicates()) by {
            assert forall|i: int, j: int|
                0 <= i < m.len() && 0 <= j < m.len() && i != j implies m[i] != m[j] by {
                assert(self.free@[i] != self.free@[j]);
            }
        }
        m.unique_seq_to_set();
        lemma_occupied_count_complement(self@);
        assert(m.to_set() =~= vacant_positions(self@)) by {
            assert forall|x: int| #[trigger]
                m.to_set().contains(x) implies vacant_positions(self@).contains(x) by {
                let k = choose|k: int| 0 <= k < m.len() && m[k] == x;
                assert(self.free@[k] as int == x);
                assert(self.storage@[x] is Empty);
            }
            assert forall|x: int| #[trigger]
                vacant_positions(self@).contains(x) implies m.to_set().contains(x) by {
                assert(self.storage@[x] is Empty);
                assert(self.free@.contains(x as u32));
                let k = choose|k: int| 0 <= k < self.free@.len() && self.free@[k] == x as u32;
                assert(m[k] == x);
            }
        }
    }

    /// The number of slots the arena's storage currently holds, occupied or
    /// vacant, for walking them in order.
    pub(crate) fn slot_count(&self) -> (r: usize)
        requires
            self.wf(),
        ensures
            r == self@.len(),
            r <= u32::MAX as usize,
    {
        self.storage.len()
    }

    /// Generation non-collision: two indices that name the same slot under
    /// different generations can never both be valid, because a slot holds a
    /// single generation at a time. In particular, once an index has been
    /// retired by a removal, any index later issued for the same slot
    /// carries a different generation, and the retired index resolves to
    /// nothing in every later state while the fresh one is valid.
    pub proof fn lemma_generation_non_collision(self, retired: Index, reissued: Index)
        requires
            retired.slot == reissued.slot,
            retired.generation@ != reissued.generation@,
            self.valid(reissued),
        ensures
            !self.valid(retired),
            self.spec_get(retired) is None,
    {
    }

    /// Aliasing exclusion: two valid indices that name the same slot agree
    /// on the generation, so distinct valid indices always name distinct
    /// slots and mutable access through two unequal indices never aliases.
    pub proof fn lemma_valid_same_slot(self, i1: Index, i2: Index)
        requires
            self.valid(i1),
            self.valid(i2),
            i1.slot == i2.slot,
        ensures
            i1.generation@ == i2.generation@,
    {
    }

    /// In a well-formed arena, an occupied slot witnesses that the live
    /// count is at least one.
    proof fn lemma_occupied_implies_live(self, s: int)
        requires
            self.wf(),
            0 <= s < self.storage@.len(),
            self.storage@[s] is Occupied,
        ensures
            self.len >= 1,
    {
        broadcast use vstd::set::group_set_axioms;

        let n = self.storage@.len() as int;
        assert(!self.free@.contains(s as u32)) by {
            if self.free@.contains(s as u32) {
                let k = choose|k: int| 0 <= k < self.free@.len() && self.free@[k] == s as u32;
                assert(self.storage@[self.free@[k] as int] is Empty);
            }
        }
        let m = self.free@.map_values(|x: u32| x as int);
        assert(m.no_duplicates()) by {
            assert forall|i: int, j: int|
                0 <= i < m.len() && 0 <= j < m.len() && i != j implies m[i] != m[j] by {
                assert(self.free@[i] != self.free@[j]);
            }
        }
        m.unique_seq_to_set();
        let range = vstd::set_lib::set_int_range(0, n).remove(s);
        assert(m.to_set().subset_of(range)) by {
            assert forall|x: int| m.to_set().contains(x) implies range.contains(x) by {
                let k = choose|k: int| 0 <= k < m.len() && m[k] == x;
                assert(self.free@[k] as int == x);
                assert(x != s);
            }
        }
        vstd::set_lib::lemma_int_range(0, n);
        assert(vstd::set_lib::set_int_range(0, n).contains(s));
        assert(range.len() == n - 1);
        vstd::set_lib::lemma_len_subset(m.to_set(), range);
        assert(self.free@.len() <= n - 1);
    }

    /// The well-formedness argument for vacating an occupied slot: the slot
    /// becomes empty under its old generation, pointing at the previous
    /// free-list head, and itself becomes the new head.
    proof fn lemma_vacate_wf(self, pre: Arena<T>, slot: u32)
        requires
            pre.wf(),
            (slot as int) < pre.storage@.len(),
            pre.storage@[slot as int] is Occupied,
            self.storage@ == pre.storage@.update(
                slot as int,
                Entry::Empty(
                    EmptyEntry {
                        generation: entry_generation(pre.storage@[slot as int]),
                        next_free: pre.first_free,
                    },
                ),
            ),
            self.len == pre.len - 1,
            self.first_free matches Some(p) && p@ == slot as usize,
            self.free@ == seq![slot] + pre.free@,
        ensures
            self.wf(),
            self@ == pre@.update(
                slot as int,
                (SlotModel {
                    generation: entry_model(pre.storage@[slot as int]).generation,
                    content: None::<T>,
                }),
            ),
    {
        assert(!pre.free@.contains(slot)) by {
            if pre.free@.contains(slot) {
                let k = choose|k: int| 0 <= k < pre.free@.len() && pre.free@[k] == slot;
                assert(pre.storage@[pre.free@[k] as int] is Empty);
            }
        }
        assert(self@ =~= pre@.update(
            slot as int,
            (SlotModel {
                generation: entry_model(pre.storage@[slot as int]).generation,
                content: None::<T>,
            }),
        ));
        assert(self.free@.no_duplicates()) by {
            assert forall|i: int, j: int|
                0 <= i < self.free@.len() && 0 <= j < self.free@.len() && i != j implies self.free@[i]
                != self.free@[j] by {
                if i != 0 && j != 0 {
                    assert(pre.free@[i - 1] != pre.free@[j - 1]);
                }
            }
        }
        assert forall|s: int|
            0 <= s < self.storage@.len() && (#[trigger] self.storage@[s]) is Empty implies self.free@.contains(
            s as u32,
        ) by {
            if s == slot as int {
                assert(self.free@[0] == slot);
            } else {
                assert(pre.storage@[s] is Empty);
                assert(pre.free@.contains(s as u32));
                let k = choose|k: int| 0 <= k < pre.free@.len() && pre.free@[k] == s as u32;
                assert(self.free@[k + 1] == s as u32);
            }
        }
        assert forall|s: int| 0 <= s < self@.len() implies (#[trigger] self@[s].generation) >= 1 by {
            assert(pre@[s].generation >= 1);
        }
    }

    /// The well-formedness argument for an insertion that reuses the head
    /// of the free list.
    proof fn lemma_insert_reuse_wf(self, pre: Arena<T>, old_free: Seq<u32>, index: Index)
        requires
            pre.wf(),
            pre.spec_len() < u32::MAX,
            old_free == pre.free@,
            old_free.len() > 0,
            index.slot == old_free[0],
            index.generation@ == next_generation_value(
                entry_model(pre.storage@[old_free[0] as int]).generation,
            ),
            self.len == pre.len + 1,
            self.storage@ == pre.storage@.update(
                old_free[0] as int,
                self.storage@[old_free[0] as int],
            ),
            self.storage@[old_free[0] as int] matches Entry::Occupied(occ) && occ.generation@
                == index.generation@,
            self.first_free == empty_next_pointer(pre.storage@[old_free[0] as int]),
            self.free@ == old_free.drop_first(),
        ensures
            self.wf(),
            self@ == pre@.update(
                index.slot as int,
                (SlotModel {
                    generation: index.generation@,
                    content: entry_model(self.storage@[old_free[0] as int]).content,
                }),
            ),
    {
        assert(self@ =~= pre@.update(
            index.slot as int,
            (SlotModel {
                generation: index.generation@,
                content: entry_model(self.storage@[old_free[0] as int]).content,
            }),
        ));
        assert forall|s: int|
            0 <= s < self.storage@.len() && (#[trigger] self.storage@[s]) is Empty implies self.free@.contains(
            s as u32,
        ) by {
            assert(pre.storage@[s] is Empty);
            assert(pre.free@.contains(s as u32));
            let k = choose|k: int| 0 <= k < pre.free@.len() && pre.free@[k] == s as u32;
            assert(k != 0);
            assert(self.free@[k - 1] == s as u32);
        }
    }
}

impl<T> Default for Arena<T> {
    fn default() -> (r: Arena<T>)
        ensures
            r.wf(),
            r@ == Seq::<SlotModel<T>>::empty(),
            r.spec_len() == 0,
            r.free_order() == Seq::<u32>::empty(),
    {
        Arena::new()
    }
}

} // verus!
