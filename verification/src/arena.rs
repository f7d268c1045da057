//! The arena into which values are serialized.

use vstd::prelude::*;

use crate::meaning::agree;
use crate::memory::{padded, zeros, LinearMemory, MEMORY_LIMIT};
use crate::serialized::{
    key_at, value_at, Layout, SerializedUntaggedString, SerializedValue,
};
use crate::value::Value;
use crate::wire::{overwritten, push_u32, stands_at, u32_bytes};

verus! {

/// A buffer whose size is fixed when it is made, and from which memory is handed out in order.
///
/// The arena also keeps values that have to outlive the serialization.
#[derive(Debug)]
pub struct PreallocatedArena {
    memory: LinearMemory,
    base: u32,
    capacity: usize,
    index: usize,
    saved: Vec<Value>,
}

impl PreallocatedArena {
    /// The contents of the memory in which the buffer lies.
    pub closed spec fn bytes(&self) -> Seq<u8> {
        self.memory.bytes()
    }

    /// The allocated blocks of that memory.
    pub closed spec fn blocks(&self) -> Map<u32, u32> {
        self.memory.blocks()
    }

    /// How many bytes that memory can still give out.
    pub open spec fn room(&self) -> int {
        MEMORY_LIMIT - self.bytes().len()
    }

    /// The address of the buffer.
    pub closed spec fn base(&self) -> int {
        self.base as int
    }

    /// The size of the buffer.
    pub closed spec fn capacity(&self) -> int {
        self.capacity as int
    }

    /// How much of the buffer is handed out.
    pub closed spec fn index(&self) -> int {
        self.index as int
    }

    /// The values that the arena keeps.
    pub closed spec fn saved(&self) -> Seq<Value> {
        self.saved@
    }

    /// The address of the first byte that is not handed out.
    pub open spec fn next(&self) -> int {
        self.base() + self.index()
    }

    /// How much of the buffer is not handed out.
    pub open spec fn free(&self) -> int {
        self.capacity() - self.index()
    }

    /// Whether the arena is well formed: its buffer is a block of its memory, aligned to eight
    /// bytes, all other blocks lie before it, and no more of it is handed out than there is.
    pub closed spec fn wf(&self) -> bool {
        &&& self.memory.wf()
        &&& self.base % 8 == 0
        &&& 8 <= self.base
        &&& self.base + self.capacity <= self.memory.bytes().len()
        &&& self.index <= self.capacity
        &&& self.capacity > 0 ==> self.memory.blocks().contains_key(self.base)
            && self.memory.blocks()[self.base] == self.capacity
        &&& forall|p: u32| #[trigger]
            self.memory.blocks().contains_key(p) ==> p + self.memory.blocks()[p] <= self.base || (p
                == self.base && self.capacity > 0)
    }

    /// What is known of every arena that is well formed.
    pub proof fn lemma_wf(&self)
        requires
            self.wf(),
        ensures
            8 <= self.base(),
            self.base() % 8 == 0,
            0 <= self.index() <= self.capacity(),
            self.base() + self.capacity() <= self.bytes().len() <= MEMORY_LIMIT,
    {
    }

    /// An arena with a buffer of `memory_required` bytes.
    pub fn new(memory_required: usize) -> (arena: PreallocatedArena)
        requires
            memory_required <= MEMORY_LIMIT - 8,
        ensures
            arena.wf(),
            arena.capacity() == memory_required,
            arena.index() == 0,
            arena.saved() == Seq::<Value>::empty(),
            arena.bytes() == zeros(8) + zeros(padded(memory_required as nat)),
            arena.base() == 8,
            arena.blocks() == if memory_required == 0 {
                Map::<u32, u32>::empty()
            } else {
                Map::<u32, u32>::empty().insert(8, memory_required as u32)
            },
    {
        PreallocatedArena::new_in(LinearMemory::new(), memory_required)
    }

    /// An arena with a buffer of `memory_required` bytes in the given memory.
    pub fn new_in(memory: LinearMemory, memory_required: usize) -> (arena: PreallocatedArena)
        requires
            memory.wf(),
            memory_required <= memory.room(),
        ensures
            arena.wf(),
            arena.capacity() == memory_required,
            arena.index() == 0,
            arena.saved() == Seq::<Value>::empty(),
            arena.base() == memory.bytes().len(),
            arena.bytes() == memory.bytes() + zeros(padded(memory_required as nat)),
            arena.blocks() == if memory_required == 0 {
                memory.blocks()
            } else {
                memory.blocks().insert(arena.base() as u32, memory_required as u32)
            },
    {
        let mut memory = memory;
        let base = memory.allocate(memory_required);
        PreallocatedArena {
            memory,
            base,
            capacity: memory_required,
            index: 0,
            saved: Vec::new(),
        }
    }

    /// Gives back the buffer and all that was placed after it, and returns the memory in which it
    /// was.
    pub fn into_memory(self) -> (memory: LinearMemory)
        requires
            self.wf(),
        ensures
            memory.wf(),
            memory.bytes() == self.bytes().take(self.base()),
            memory.blocks() == if self.capacity() == 0 {
                self.blocks()
            } else {
                self.blocks().remove(self.base() as u32)
            },
    {
        let mut memory = self.memory;
        memory.deallocate(self.base, self.capacity);
        memory.shrink(self.base);
        memory
    }

    /// The memory in which the buffer lies.
    pub fn memory(&self) -> (memory: &LinearMemory)
        requires
            self.wf(),
        ensures
            memory.wf(),
            memory.bytes() == self.bytes(),
            memory.blocks() == self.blocks(),
    {
        &self.memory
    }

    /// Hands out memory for `count` values, and returns its address.
    pub fn reserve<T: Layout>(&mut self, count: usize) -> (pointer: u32)
        requires
            old(self).wf(),
            T::spec_size() * count <= old(self).free(),
        ensures
            extends(old(self), final(self), T::spec_size() * count as nat, 0),
            final(self).bytes() == old(self).bytes(),
            pointer == old(self).next(),
    {
        let size = T::size_of();
        assert(size * count <= usize::MAX);
        let bytes = size * count;
        assert(bytes == T::spec_size() * count);
        let pointer = self.base + self.index as u32;
        self.index = self.index + bytes;
        pointer
    }

    /// Keeps `value` for as long as the arena is there.
    pub fn save(&mut self, value: Value) -> (saved: &Value)
        requires
            old(self).wf(),
        ensures
            *saved == value,
            final(self).wf(),
            final(self).saved() == old(self).saved().push(value),
            final(self).bytes() == old(self).bytes(),
            final(self).blocks() == old(self).blocks(),
            final(self).base() == old(self).base(),
            final(self).capacity() == old(self).capacity(),
            final(self).index() == old(self).index(),
    {
        self.saved.push(value);
        &self.saved[self.saved.len() - 1]
    }

    /// The value that was kept after `i` others.
    pub fn saved_at(&self, i: usize) -> (value: &Value)
        requires
            i < self.saved().len(),
        ensures
            *value == self.saved()[i as int],
    {
        &self.saved[i]
    }

    /// Whether some of the buffer is not handed out.
    pub fn has_free_space(&self) -> (free: bool)
        ensures
            free == (self.free() != 0),
    {
        self.index != self.capacity
    }

    /// Asserts that all of the buffer is handed out. There is nothing to do at run time: a caller
    /// has to know it.
    pub fn assert_no_free_space_left(&self)
        requires
            self.free() == 0,
    {
    }

    /// Gives bytes that belong to somebody else an address. They take no space in the buffer.
    pub fn place(&mut self, part: &[u8]) -> (pointer: u32)
        requires
            old(self).wf(),
            part@.len() <= old(self).room(),
        ensures
            extends(old(self), final(self), 0, padded(part@.len())),
            pointer == old(self).bytes().len(),
            pointer % 8 == 0,
            stands_at(final(self).bytes(), pointer as int, part@),
    {
        self.memory.place(part)
    }

    /// Writes `value` into memory that was handed out.
    pub fn write_value(&mut self, pointer: u32, value: SerializedValue)
        requires
            old(self).wf(),
            old(self).base() <= pointer,
            pointer + 16 <= old(self).next(),
        ensures
            rewritten(old(self), final(self), pointer as int, value.image()),
            value_at(final(self).bytes(), pointer as int) == Some(value),
    {
        let part = value.to_bytes();
        self.memory.write(pointer, part.as_slice());
        proof {
            crate::serialized::law_value_round_trip(self.bytes(), pointer as int, value);
        }
    }

    /// Writes the key of an object into memory that was handed out.
    pub fn write_key(&mut self, pointer: u32, key: SerializedUntaggedString)
        requires
            old(self).wf(),
            old(self).base() <= pointer,
            pointer + 8 <= old(self).next(),
        ensures
            rewritten(
                old(self),
                final(self),
                pointer as int,
                u32_bytes(key.pointer) + u32_bytes(key.length),
            ),
            key_at(final(self).bytes(), pointer as int) == key,
    {
        let mut part: Vec<u8> = Vec::new();
        push_u32(&mut part, key.pointer);
        push_u32(&mut part, key.length);
        assert(part@ =~= u32_bytes(key.pointer) + u32_bytes(key.length));
        self.memory.write(pointer, part.as_slice());
        proof {
            crate::serialized::law_key_round_trip(self.bytes(), pointer as int, key);
        }
    }
}

/// Memory that an arena hands out is aligned to eight bytes, if what it has handed out before
/// keeps that alignment.
pub proof fn law_memory_is_aligned(arena: &PreallocatedArena)
    requires
        arena.wf(),
        arena.index() % 8 == 0,
    ensures
        arena.next() % 8 == 0,
{
}

/// Whether `after` is `before` with `used` more bytes of the buffer handed out, and `placed` more
/// bytes of memory after the end of the memory. Nothing else has changed, but for the contents of
/// what was handed out.
pub open spec fn extends(
    before: &PreallocatedArena,
    after: &PreallocatedArena,
    used: nat,
    placed: nat,
) -> bool {
    &&& after.wf()
    &&& after.base() == before.base()
    &&& after.capacity() == before.capacity()
    &&& after.saved() == before.saved()
    &&& after.blocks() == before.blocks()
    &&& after.index() == before.index() + used
    &&& after.bytes().len() == before.bytes().len() + placed
    &&& forall|a: int|
        0 <= a < before.bytes().len() && !(before.next() <= a < after.next())
            ==> #[trigger] after.bytes()[a] == before.bytes()[a]
}

/// What is handed out of a buffer and what is free make the buffer, the next address is as far from
/// its start as what is handed out is large, and its memory has the room that any memory has.
pub proof fn law_arena_adds_up(arena: &PreallocatedArena)
    ensures
        arena.index() + arena.free() == arena.capacity(),
        arena.next() - arena.base() == arena.index(),
        arena.room() + arena.bytes().len() == 0xffff_fff8,
{
}

/// Using more of an arena leaves its buffer where it is, the blocks and the values that it keeps as
/// they are, and of the memory all but the part of the buffer that it hands out.
pub proof fn law_step_leaves_the_rest_alone(
    before: &PreallocatedArena,
    after: &PreallocatedArena,
    used: nat,
    placed: nat,
)
    requires
        before.wf(),
        extends(before, after, used, placed),
    ensures
        after.wf(),
        after.base() == before.base(),
        after.capacity() == before.capacity(),
        after.index() == before.index() + used,
        after.saved() == before.saved(),
        after.blocks() == before.blocks(),
        after.bytes().len() == before.bytes().len() + placed,
        after.bytes().take(before.next()) == before.bytes().take(before.next()),
        after.bytes().subrange(after.next(), before.bytes().len() as int)
            == before.bytes().skip(after.next()),
        forall|a: int| #[trigger]
            fresh(before, after).contains(a) <==> before.next() <= a < before.next() + used
                || before.bytes().len() <= a < before.bytes().len() + placed,
{
    before.lemma_wf();
    after.lemma_wf();
    assert(after.bytes().take(before.next()) =~= before.bytes().take(before.next()));
    assert(after.bytes().subrange(after.next(), before.bytes().len() as int)
        =~= before.bytes().skip(after.next()));
}

/// Writing into an arena changes the part of the memory that is written, and nothing else.
pub proof fn law_writing_leaves_the_rest_alone(
    before: &PreallocatedArena,
    after: &PreallocatedArena,
    at: int,
    part: Seq<u8>,
)
    requires
        rewritten(before, after, at, part),
        0 <= at,
        at + part.len() <= before.bytes().len(),
    ensures
        after.wf(),
        after.base() == before.base(),
        after.capacity() == before.capacity(),
        after.index() == before.index(),
        after.saved() == before.saved(),
        after.blocks() == before.blocks(),
        after.bytes() == before.bytes().take(at) + part + before.bytes().skip(
            (at + part.len()) as int,
        ),
{
    assert(after.bytes() =~= before.bytes().take(at) + part + before.bytes().skip(
        (at + part.len()) as int,
    ));
}

/// The sum of sizes.
pub open spec fn total(sizes: Seq<nat>) -> nat
    decreases sizes.len(),
{
    if sizes.len() == 0 {
        0
    } else {
        total(sizes.drop_last()) + sizes.last()
    }
}

/// Whether step `i` of those through the given states takes the given numbers of bytes of the
/// buffer and of the memory after it.
pub open spec fn step(
    states: Seq<PreallocatedArena>,
    used: Seq<nat>,
    placed: Seq<nat>,
    i: int,
) -> bool {
    extends(&states[i], &states[i + 1], used[i], placed[i])
}

/// Whether an arena goes through the given states one after the other, and each step takes the
/// given numbers of bytes.
pub open spec fn steps(
    states: Seq<PreallocatedArena>,
    used: Seq<nat>,
    placed: Seq<nat>,
) -> bool {
    &&& states.len() == used.len() + 1
    &&& placed.len() == used.len()
    &&& states[0].wf()
    &&& forall|i: int| 0 <= i < used.len() ==> #[trigger] step(states, used, placed, i)
}

/// However many values are serialized into an arena, and of whatever types: together they take the
/// sum of what each takes. No free space is left if and only if that sum is what was free before,
/// and it was enough for each of them.
pub proof fn law_arena_is_used_exactly(
    states: Seq<PreallocatedArena>,
    used: Seq<nat>,
    placed: Seq<nat>,
)
    requires
        steps(states, used, placed),
    ensures
        extends(&states[0], &states.last(), total(used), total(placed)),
        states.last().free() == 0 <==> states[0].free() == total(used),
        forall|i: int| 0 <= i < used.len() ==> used[i] <= (#[trigger] states[i]).free(),
{
    lemma_steps(states, used, placed);
    assert forall|i: int| 0 <= i < used.len() implies used[i] <= (#[trigger] states[i]).free() by {
        assert(step(states, used, placed, i));
        states[i + 1].lemma_wf();
    }
}

/// What was written when a value was serialized into an arena stays as it is while others are
/// serialized after it.
pub proof fn law_earlier_values_are_left_alone(
    states: Seq<PreallocatedArena>,
    used: Seq<nat>,
    placed: Seq<nat>,
    i: int,
)
    requires
        steps(states, used, placed),
        0 <= i < states.len(),
    ensures
        agree(states[i].bytes(), states.last().bytes(), fresh(&states[0], &states[i])),
{
    let used_1 = used.take(i);
    let placed_1 = placed.take(i);
    let used_2 = used.skip(i);
    let placed_2 = placed.skip(i);
    assert forall|k: int| 0 <= k < i implies #[trigger] step(
        states.take(i + 1),
        used_1,
        placed_1,
        k,
    ) by {
        assert(step(states, used, placed, k));
    }
    lemma_steps(states.take(i + 1), used_1, placed_1);
    if i > 0 {
        assert(step(states, used, placed, i - 1));
    }
    assert forall|k: int| 0 <= k < used_2.len() implies #[trigger] step(
        states.skip(i),
        used_2,
        placed_2,
        k,
    ) by {
        assert(step(states, used, placed, i + k));
    }
    lemma_steps(states.skip(i), used_2, placed_2);
    lemma_extends_trans(
        &states[0],
        &states[i],
        &states.last(),
        total(used_1),
        total(placed_1),
        total(used_2),
        total(placed_2),
    );
}

/// Steps that follow each other make one step.
proof fn lemma_steps(states: Seq<PreallocatedArena>, used: Seq<nat>, placed: Seq<nat>)
    requires
        steps(states, used, placed),
    ensures
        extends(&states[0], &states.last(), total(used), total(placed)),
    decreases used.len(),
{
    if used.len() > 0 {
        let n = used.len() - 1;
        let earlier = states.drop_last();
        assert forall|i: int| 0 <= i < n implies #[trigger] step(
            earlier,
            used.drop_last(),
            placed.drop_last(),
            i,
        ) by {
            assert(step(states, used, placed, i));
        }
        lemma_steps(earlier, used.drop_last(), placed.drop_last());
        assert(step(states, used, placed, n));
        lemma_extends_trans(
            &states[0],
            &states[n],
            &states[n + 1],
            total(used.drop_last()),
            total(placed.drop_last()),
            used[n],
            placed[n],
        );
    }
}

/// An arena that was used leaves the memory in which it was made as it was.
pub proof fn law_memory_comes_back(
    memory: Seq<u8>,
    start: &PreallocatedArena,
    end: &PreallocatedArena,
    used: nat,
    placed: nat,
)
    requires
        start.wf(),
        start.base() == memory.len(),
        memory.is_prefix_of(start.bytes()),
        extends(start, end, used, placed),
    ensures
        end.bytes().take(end.base()) == memory,
{
    start.lemma_wf();
    end.lemma_wf();
    assert forall|a: int| 0 <= a < memory.len() implies #[trigger] end.bytes()[a] == memory[a] by {
        assert(end.bytes()[a] == start.bytes()[a]);
    }
    assert(end.bytes().take(end.base()) =~= memory);
}

/// Whether `after` is `before` with `part` written over its memory.
pub open spec fn rewritten(
    before: &PreallocatedArena,
    after: &PreallocatedArena,
    at: int,
    part: Seq<u8>,
) -> bool {
    &&& after.wf()
    &&& after.base() == before.base()
    &&& after.capacity() == before.capacity()
    &&& after.index() == before.index()
    &&& after.saved() == before.saved()
    &&& after.blocks() == before.blocks()
    &&& after.bytes() == overwritten(before.bytes(), at, part)
}

/// The addresses that `after` has in use and `before` has not.
pub open spec fn fresh(before: &PreallocatedArena, after: &PreallocatedArena) -> Set<int> {
    Set::new(
        |a: int|
            before.next() <= a < after.next() || before.bytes().len() <= a < after.bytes().len(),
    )
}

/// Steps that each use more of an arena make one step, and a later one leaves alone what an
/// earlier one has written.
pub proof fn lemma_extends_trans(
    first: &PreallocatedArena,
    second: &PreallocatedArena,
    third: &PreallocatedArena,
    used_1: nat,
    placed_1: nat,
    used_2: nat,
    placed_2: nat,
)
    requires
        first.wf(),
        extends(first, second, used_1, placed_1),
        extends(second, third, used_2, placed_2),
    ensures
        extends(first, third, used_1 + used_2, placed_1 + placed_2),
        fresh(first, second).subset_of(fresh(first, third)),
        fresh(second, third).subset_of(fresh(first, third)),
        agree(second.bytes(), third.bytes(), fresh(first, second)),
        second.bytes().len() <= third.bytes().len(),
{
    first.lemma_wf();
    second.lemma_wf();
    assert forall|a: int|
        0 <= a < first.bytes().len() && !(first.next() <= a
            < third.next()) implies #[trigger] third.bytes()[a] == first.bytes()[a] by {
        assert(second.bytes()[a] == first.bytes()[a]);
    }
    assert forall|a: int| #[trigger]
        fresh(first, second).contains(a) && 0 <= a < second.bytes().len() implies a
        < third.bytes().len() && third.bytes()[a] == second.bytes()[a] by {}
}

} // verus!
