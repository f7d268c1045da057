//! The linear memory that both sides of the boundary share.

use vstd::prelude::*;
use vstd::utf8::{decode_utf8, valid_utf8};
use std::collections::HashMap;

use crate::serialized::{key_at, value_at, SerializedUntaggedString, SerializedValue};
use crate::tag::Tag;
use crate::wire::{join, overwritten, stands_at, u32_at};

verus! {

/// The largest size of a linear memory: every address, and the one that follows it, is a
/// 32-bit number.
pub const MEMORY_LIMIT: u64 = 0xffff_fff8;

/// The size of `n` bytes with the padding that follows them up to a multiple of eight.
pub open spec fn padded(n: nat) -> nat {
    (n + 7) / 8 * 8
}

/// `n` bytes of value zero.
pub open spec fn zeros(n: nat) -> Seq<u8> {
    Seq::new(n, |i: int| 0u8)
}

/// Whether `size` is `n`, or absent because no memory has room for `n` bytes.
pub open spec fn measures(size: Option<u32>, n: nat) -> bool {
    match size {
        Some(size) => size == n && n <= MEMORY_LIMIT,
        None => n > MEMORY_LIMIT,
    }
}

/// The size of `n` bytes with the padding that follows them.
pub fn padded_size(n: usize) -> (size: Option<u32>)
    ensures
        measures(size, padded(n as nat)),
{
    if n as u64 <= MEMORY_LIMIT {
        Some(((n as u64 + 7) / 8 * 8) as u32)
    } else {
        None
    }
}

/// The sum of two sizes, unless one is absent or no memory has room for that many bytes.
pub fn total_size(first: Option<u32>, second: Option<u32>) -> (size: Option<u32>)
    ensures
        size == (match (first, second) {
            (Some(first), Some(second)) => if first + second <= MEMORY_LIMIT {
                Some((first + second) as u32)
            } else {
                None
            },
            _ => None,
        }),
{
    match (first, second) {
        (Some(first), Some(second)) => {
            if first as u64 + second as u64 <= MEMORY_LIMIT {
                Some(first + second)
            } else {
                None
            }
        },
        _ => None,
    }
}

/// A linear memory: bytes with 32-bit addresses, and the blocks of it that are allocated.
///
/// Address zero is never part of a block. Blocks and other parts are given addresses one after the
/// other, and the end of the memory can be given back.
#[derive(Debug)]
pub struct LinearMemory {
    bytes: Vec<u8>,
    blocks: HashMap<u32, u32>,
}

impl LinearMemory {
    /// The contents, from address zero on.
    pub closed spec fn bytes(&self) -> Seq<u8> {
        self.bytes@
    }

    /// The allocated blocks: their addresses, and their sizes.
    pub closed spec fn blocks(&self) -> Map<u32, u32> {
        self.blocks@
    }

    /// How many bytes can still be given out.
    pub open spec fn room(&self) -> int {
        MEMORY_LIMIT - self.bytes().len()
    }

    /// Whether the memory is well formed: blocks are not empty, lie within the memory above
    /// address zero, and do not overlap.
    pub open spec fn wf(&self) -> bool {
        &&& 8 <= self.bytes().len() <= MEMORY_LIMIT
        &&& self.bytes().len() % 8 == 0
        &&& forall|p: u32| #[trigger]
            self.blocks().contains_key(p) ==> 8 <= p && 0 < self.blocks()[p] && p + self.blocks()[p]
                <= self.bytes().len()
        &&& forall|p: u32, q: u32|
            #![trigger self.blocks().contains_key(p), self.blocks().contains_key(q)]
            self.blocks().contains_key(p) && self.blocks().contains_key(q) && p < q ==> p
                + self.blocks()[p] <= q
    }

    /// Whether the memory holds `part` at `pointer`.
    pub open spec fn holds(&self, pointer: int, part: Seq<u8>) -> bool {
        stands_at(self.bytes(), pointer, part)
    }

    /// A memory with nothing in it.
    pub fn new() -> (memory: LinearMemory)
        ensures
            memory.wf(),
            memory.bytes() == zeros(8),
            memory.blocks() == Map::<u32, u32>::empty(),
    {
        let mut bytes: Vec<u8> = Vec::new();
        let mut i: usize = 0;
        while i < 8
            invariant
                i <= 8,
                bytes@ == zeros(i as nat),
            decreases 8 - i,
        {
            bytes.push(0);
            i += 1;
            assert(bytes@ =~= zeros(i as nat));
        }
        LinearMemory { bytes, blocks: HashMap::new() }
    }

    /// The size of the memory.
    pub fn size(&self) -> (size: usize)
        ensures
            size == self.bytes().len(),
    {
        self.bytes.len()
    }

    /// Appends `part` and the padding that follows it.
    fn grow(&mut self, part: &[u8])
        requires
            old(self).wf(),
            part@.len() <= old(self).room(),
        ensures
            final(self).wf(),
            final(self).blocks() == old(self).blocks(),
            final(self).bytes() == old(self).bytes() + part@ + zeros(
                (padded(part@.len()) - part@.len()) as nat,
            ),
            final(self).bytes().len() == old(self).bytes().len() + padded(part@.len()),
    {
        let ghost before = self.bytes@;
        self.bytes.extend_from_slice(part);
        let ghost with_part = self.bytes@;
        assert(with_part =~= before + part@);
        let ghost mut padding: nat = 0;
        while self.bytes.len() % 8 != 0
            invariant
                before.len() % 8 == 0,
                before.len() + part@.len() <= MEMORY_LIMIT,
                with_part == before + part@,
                self.bytes@ == with_part + zeros(padding),
                padding < 8,
                with_part.len() % 8 == 0 ==> padding == 0,
                padding + with_part.len() % 8 <= 8,
                self.blocks@ == old(self).blocks@,
            decreases 8 - padding,
        {
            self.bytes.push(0);
            proof {
                padding = padding + 1;
                assert(self.bytes@ =~= with_part + zeros(padding));
            }
        }
        assert(self.blocks() == old(self).blocks());
    }

    /// Allocates a block of `size` bytes, all zero. No block is needed for no bytes.
    pub fn allocate(&mut self, size: usize) -> (pointer: u32)
        requires
            old(self).wf(),
            size <= old(self).room(),
        ensures
            final(self).wf(),
            pointer == old(self).bytes().len(),
            pointer % 8 == 0,
            final(self).bytes() == old(self).bytes() + zeros(padded(size as nat)),
            final(self).blocks() == if size == 0 {
                old(self).blocks()
            } else {
                old(self).blocks().insert(pointer, size as u32)
            },
    {
        broadcast use vstd::std_specs::hash::group_hash_axioms;

        let pointer = self.bytes.len() as u32;
        let mut part: Vec<u8> = Vec::new();
        let mut i: usize = 0;
        while i < size
            invariant
                i <= size,
                part@ == zeros(i as nat),
            decreases size - i,
        {
            part.push(0);
            i += 1;
            assert(part@ =~= zeros(i as nat));
        }
        self.grow(part.as_slice());
        assert(self.bytes() =~= old(self).bytes() + zeros(padded(size as nat)));
        if size > 0 {
            self.blocks.insert(pointer, size as u32);
        }
        pointer
    }

    /// Gives back the block of `size` bytes at `pointer`. There is none for no bytes.
    pub fn deallocate(&mut self, pointer: u32, size: usize)
        requires
            old(self).wf(),
            size != 0 ==> old(self).blocks().contains_key(pointer) && old(self).blocks()[pointer]
                == size,
        ensures
            final(self).wf(),
            final(self).bytes() == old(self).bytes(),
            final(self).blocks() == if size == 0 {
                old(self).blocks()
            } else {
                old(self).blocks().remove(pointer)
            },
    {
        broadcast use vstd::std_specs::hash::group_hash_axioms;

        if size > 0 {
            self.blocks.remove(&pointer);
        }
    }

    /// Gives `part` an address. The bytes belong to their owner, not to a block.
    pub fn place(&mut self, part: &[u8]) -> (pointer: u32)
        requires
            old(self).wf(),
            part@.len() <= old(self).room(),
        ensures
            final(self).wf(),
            final(self).blocks() == old(self).blocks(),
            pointer == old(self).bytes().len(),
            pointer % 8 == 0,
            final(self).bytes() == old(self).bytes() + part@ + zeros(
                (padded(part@.len()) - part@.len()) as nat,
            ),
            final(self).bytes().len() == old(self).bytes().len() + padded(part@.len()),
            final(self).holds(pointer as int, part@),
    {
        let pointer = self.bytes.len() as u32;
        self.grow(part);
        pointer
    }

    /// Gives back all of the memory from address `size` on, where no block lies.
    pub fn shrink(&mut self, size: u32)
        requires
            old(self).wf(),
            8 <= size <= old(self).bytes().len(),
            size % 8 == 0,
            forall|p: u32| #[trigger]
                old(self).blocks().contains_key(p) ==> p + old(self).blocks()[p] <= size,
        ensures
            final(self).wf(),
            final(self).bytes() == old(self).bytes().take(size as int),
            final(self).blocks() == old(self).blocks(),
    {
        self.bytes.truncate(size as usize);
        assert(self.bytes() =~= old(self).bytes().take(size as int));
        assert(self.blocks() == old(self).blocks());
    }

    /// Writes `part` at `pointer`.
    pub fn write(&mut self, pointer: u32, part: &[u8])
        requires
            old(self).wf(),
            pointer + part@.len() <= old(self).bytes().len(),
        ensures
            final(self).wf(),
            final(self).blocks() == old(self).blocks(),
            final(self).bytes() == overwritten(old(self).bytes(), pointer as int, part@),
            final(self).holds(pointer as int, part@),
    {
        let ghost before = self.bytes@;
        assert(before =~= overwritten(before, pointer as int, part@.take(0)));
        let mut i: usize = 0;
        while i < part.len()
            invariant
                i <= part@.len(),
                pointer + part@.len() <= before.len(),
                self.bytes@.len() == before.len(),
                before.len() <= MEMORY_LIMIT,
                self.bytes@ == overwritten(before, pointer as int, part@.take(i as int)),
                self.blocks@ == old(self).blocks@,
            decreases part@.len() - i,
        {
            self.bytes.set(pointer as usize + i, part[i]);
            i += 1;
            assert(self.bytes@ =~= overwritten(before, pointer as int, part@.take(i as int)));
        }
        assert(part@.take(i as int) =~= part@);
        assert(self.blocks() == old(self).blocks());
    }

    /// The `length` bytes at `pointer`.
    pub fn read(&self, pointer: u32, length: u32) -> (part: Vec<u8>)
        requires
            pointer + length <= self.bytes().len(),
            self.wf(),
        ensures
            part@ == self.bytes().subrange(pointer as int, pointer + length),
    {
        let mut part: Vec<u8> = Vec::new();
        let mut i: usize = 0;
        while i < length as usize
            invariant
                i <= length,
                pointer + length <= self.bytes@.len(),
                self.bytes@.len() <= MEMORY_LIMIT,
                part@ == self.bytes@.subrange(pointer as int, pointer + i),
            decreases length - i,
        {
            part.push(self.bytes[pointer as usize + i]);
            i += 1;
            assert(part@ =~= self.bytes@.subrange(pointer as int, pointer + i));
        }
        part
    }

    /// The 32-bit number at `pointer`.
    pub fn read_u32(&self, pointer: u32) -> (x: u32)
        requires
            self.wf(),
            pointer + 4 <= self.bytes().len(),
        ensures
            x == u32_at(self.bytes(), pointer as int),
    {
        let at = pointer as usize;
        self.bytes[at] as u32 + 256 * self.bytes[at + 1] as u32 + 65536 * self.bytes[at + 2] as u32
            + 16777216 * self.bytes[at + 3] as u32
    }

    /// The serialized value at `pointer`, unless no tag stands there.
    pub fn read_value(&self, pointer: u32) -> (value: Option<SerializedValue>)
        requires
            self.wf(),
            pointer + 16 <= self.bytes().len(),
        ensures
            value == value_at(self.bytes(), pointer as int),
    {
        reveal(value_at);
        match Tag::from_code(self.bytes[pointer as usize + 12]) {
            Some(tag) => Some(
                SerializedValue {
                    data_1: join(self.read_u32(pointer), self.read_u32(pointer + 4)),
                    data_2: self.read_u32(pointer + 8),
                    tag,
                },
            ),
            None => None,
        }
    }

    /// The key of an object at `pointer`.
    pub fn read_key(&self, pointer: u32) -> (key: SerializedUntaggedString)
        requires
            self.wf(),
            pointer + 8 <= self.bytes().len(),
        ensures
            key == key_at(self.bytes(), pointer as int),
    {
        reveal(key_at);
        SerializedUntaggedString {
            pointer: self.read_u32(pointer),
            length: self.read_u32(pointer + 4),
        }
    }
}

/// The room of a memory is what is missing to the largest size that a memory can have.
pub proof fn law_room_of_memory(memory: &LinearMemory)
    ensures
        memory.room() + memory.bytes().len() == 0xffff_fff8,
{
}

/// Calls `String::from_utf8`: bytes that are UTF-8 give the string that they encode, and other
/// bytes give an error.
#[verifier::external_body]
pub(crate) fn string_from_utf8(bytes: Vec<u8>) -> (string: Option<String>)
    ensures
        string is Some <==> valid_utf8(bytes@),
        string matches Some(s) ==> s@ == decode_utf8(bytes@),
{
    String::from_utf8(bytes).ok()
}

} // verus!
