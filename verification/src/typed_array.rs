//! Slices of numbers whose bytes are placed in the memory, where JavaScript gets to see them.

use vstd::prelude::*;

use crate::arena::{fresh, PreallocatedArena};
use crate::float::{Float32, Float64};
use crate::meaning::{covered, element_size, js_at};
use crate::memory::{padded, padded_size, MEMORY_LIMIT};
use crate::serialize::JsSerialize;
use crate::serialized::{SerializedUntaggedUnsafeTypedArray, SerializedValue, Untagged};
use crate::value::JsValue;
use crate::wire::{push_u16, push_u32, push_u64, stands_at, u16_bytes, u32_bytes, u64_bytes};

verus! {

/// A number that can be an element of a typed array.
pub trait TypedElement: Sized {
    /// The number of the element type.
    spec fn spec_kind() -> u32;

    /// The bytes of the element in memory.
    spec fn element_bytes(&self) -> Seq<u8>;

    /// All elements of a type have the same size.
    proof fn lemma_element_size(&self)
        ensures
            Self::spec_kind() <= 7,
            self.element_bytes().len() == element_size(Self::spec_kind()),
    ;

    /// The number of the element type.
    fn kind() -> (kind: u32)
        ensures
            kind == Self::spec_kind(),
    ;

    /// The size of an element.
    fn element_size_of() -> (size: u32)
        ensures
            size == element_size(Self::spec_kind()),
            Self::spec_kind() <= 7,
    ;

    /// Appends the bytes of the element.
    fn push_bytes(&self, out: &mut Vec<u8>)
        ensures
            final(out)@ == old(out)@ + self.element_bytes(),
    ;
}

impl TypedElement for u8 {
    open spec fn spec_kind() -> u32 {
        0
    }

    open spec fn element_bytes(&self) -> Seq<u8> {
        seq![*self]
    }

    proof fn lemma_element_size(&self) {
    }

    fn kind() -> (kind: u32) {
        0
    }

    fn element_size_of() -> (size: u32) {
        1
    }

    fn push_bytes(&self, out: &mut Vec<u8>) {
        out.push(*self);
        assert(out@ =~= old(out)@ + self.element_bytes());
    }
}

impl TypedElement for i8 {
    open spec fn spec_kind() -> u32 {
        1
    }

    open spec fn element_bytes(&self) -> Seq<u8> {
        seq![*self as u8]
    }

    proof fn lemma_element_size(&self) {
    }

    fn kind() -> (kind: u32) {
        1
    }

    fn element_size_of() -> (size: u32) {
        1
    }

    fn push_bytes(&self, out: &mut Vec<u8>) {
        out.push(*self as u8);
        assert(out@ =~= old(out)@ + self.element_bytes());
    }
}

impl TypedElement for u16 {
    open spec fn spec_kind() -> u32 {
        2
    }

    open spec fn element_bytes(&self) -> Seq<u8> {
        u16_bytes(*self)
    }

    proof fn lemma_element_size(&self) {
    }

    fn kind() -> (kind: u32) {
        2
    }

    fn element_size_of() -> (size: u32) {
        2
    }

    fn push_bytes(&self, out: &mut Vec<u8>) {
        push_u16(out, *self);
    }
}

impl TypedElement for i16 {
    open spec fn spec_kind() -> u32 {
        3
    }

    open spec fn element_bytes(&self) -> Seq<u8> {
        u16_bytes(*self as u16)
    }

    proof fn lemma_element_size(&self) {
    }

    fn kind() -> (kind: u32) {
        3
    }

    fn element_size_of() -> (size: u32) {
        2
    }

    fn push_bytes(&self, out: &mut Vec<u8>) {
        push_u16(out, *self as u16);
    }
}

impl TypedElement for u32 {
    open spec fn spec_kind() -> u32 {
        4
    }

    open spec fn element_bytes(&self) -> Seq<u8> {
        u32_bytes(*self)
    }

    proof fn lemma_element_size(&self) {
    }

    fn kind() -> (kind: u32) {
        4
    }

    fn element_size_of() -> (size: u32) {
        4
    }

    fn push_bytes(&self, out: &mut Vec<u8>) {
        push_u32(out, *self);
    }
}

impl TypedElement for i32 {
    open spec fn spec_kind() -> u32 {
        5
    }

    open spec fn element_bytes(&self) -> Seq<u8> {
        u32_bytes(*self as u32)
    }

    proof fn lemma_element_size(&self) {
    }

    fn kind() -> (kind: u32) {
        5
    }

    fn element_size_of() -> (size: u32) {
        4
    }

    fn push_bytes(&self, out: &mut Vec<u8>) {
        push_u32(out, *self as u32);
    }
}

impl TypedElement for Float32 {
    open spec fn spec_kind() -> u32 {
        6
    }

    open spec fn element_bytes(&self) -> Seq<u8> {
        u32_bytes(self.bits)
    }

    proof fn lemma_element_size(&self) {
    }

    fn kind() -> (kind: u32) {
        6
    }

    fn element_size_of() -> (size: u32) {
        4
    }

    fn push_bytes(&self, out: &mut Vec<u8>) {
        push_u32(out, self.bits);
    }
}

impl TypedElement for Float64 {
    open spec fn spec_kind() -> u32 {
        7
    }

    open spec fn element_bytes(&self) -> Seq<u8> {
        u64_bytes(self.bits)
    }

    proof fn lemma_element_size(&self) {
    }

    fn kind() -> (kind: u32) {
        7
    }

    fn element_size_of() -> (size: u32) {
        8
    }

    fn push_bytes(&self, out: &mut Vec<u8>) {
        push_u64(out, self.bits);
    }
}

/// The bytes of the first `n` elements of a sequence.
pub open spec fn elements_bytes<T: TypedElement>(items: Seq<T>, n: nat) -> Seq<u8>
    decreases n,
{
    if n == 0 {
        Seq::empty()
    } else {
        elements_bytes(items, (n - 1) as nat) + items[n - 1].element_bytes()
    }
}

/// `n` elements take `n` times the bytes of one.
pub proof fn law_elements_size<T: TypedElement>(items: Seq<T>, n: nat)
    ensures
        elements_bytes(items, n).len() == n * element_size(T::spec_kind()),
    decreases n,
{
    if n > 0 {
        law_elements_size(items, (n - 1) as nat);
        items[n - 1].lemma_element_size();
        assert(n * element_size(T::spec_kind()) == (n - 1) * element_size(T::spec_kind())
            + element_size(T::spec_kind())) by (nonlinear_arith)
            requires
                n > 0,
        ;
    } else {
        assert(0 * element_size(T::spec_kind()) == 0) by (nonlinear_arith);
    }
}

/// Each element stands in the memory of its slice at its index, counted in elements.
pub proof fn law_element_stands_at_its_index<T: TypedElement>(items: Seq<T>, n: nat, i: int)
    requires
        0 <= i < n,
    ensures
        ({
            let size = element_size(T::spec_kind());
            &&& (i + 1) * size <= elements_bytes(items, n).len()
            &&& elements_bytes(items, n).subrange(i * size, (i + 1) * size)
                == items[i].element_bytes()
        }),
    decreases n,
{
    let size = element_size(T::spec_kind());
    law_elements_size(items, n);
    law_elements_size(items, (n - 1) as nat);
    items[i].lemma_element_size();
    assert((i + 1) * size == i * size + size) by (nonlinear_arith);
    assert(0 <= i * size) by (nonlinear_arith)
        requires
            0 <= i,
            0 <= size,
    ;
    if i == n - 1 {
        assert(elements_bytes(items, n).subrange(i * size, (i + 1) * size)
            =~= items[i].element_bytes());
    } else {
        law_element_stands_at_its_index(items, (n - 1) as nat, i);
        assert(elements_bytes(items, n).subrange(i * size, (i + 1) * size) =~= elements_bytes(
            items,
            (n - 1) as nat,
        ).subrange(i * size, (i + 1) * size));
    }
}

/// An address that is a multiple of eight can be counted in elements.
proof fn lemma_aligned(address: int, kind: u32)
    requires
        address % 8 == 0,
    ensures
        address / element_size(kind) * element_size(kind) == address,
{
    let size = element_size(kind);
    if size == 1 {
    } else if size == 2 {
    } else if size == 4 {
    } else {
    }
}

/// The bytes of a slice that stand at an address are what a typed array shows.
proof fn lemma_typed_array_at(
    bytes: Seq<u8>,
    region: Set<int>,
    address: u32,
    pointer: u32,
    length: u32,
    kind: u32,
    shown: Seq<u8>,
)
    requires
        pointer * element_size(kind) == address,
        length * element_size(kind) == shown.len(),
        covered(bytes, region, address as int, shown.len() as int),
        stands_at(bytes, address as int, shown),
    ensures
        js_at(
            bytes,
            region,
            (SerializedUntaggedUnsafeTypedArray { pointer, length, kind }).tagged(),
            JsValue::TypedArray(kind, shown),
        ),
{
    (SerializedUntaggedUnsafeTypedArray { pointer, length, kind }).law_data_round_trip();
}

/// A slice takes none of the arena, and its elements are placed with less than eight bytes of
/// padding.
pub proof fn law_typed_arrays_are_placed<T: TypedElement>(array: UnsafeTypedArray<'_, T>)
    ensures
        array.required() == 0,
        array.placed() % 8 == 0,
        array.0@.len() * element_size(T::spec_kind()) <= array.placed() < array.0@.len()
            * element_size(T::spec_kind()) + 8,
{
    law_elements_size(array.0@, array.0@.len());
}

/// A slice whose bytes JavaScript gets to see as they are. Serialization gives them an address:
/// it places them in the memory, outside the buffer of the arena.
#[derive(Debug)]
pub struct UnsafeTypedArray<'r, T: TypedElement>(pub &'r [T]);

impl<'r, T: TypedElement> UnsafeTypedArray<'r, T> {
    /// Shows a slice.
    pub fn new(slice: &'r [T]) -> (array: Self)
        ensures
            array.0@ == slice@,
    {
        UnsafeTypedArray(slice)
    }
}

impl<'r, T: TypedElement> JsSerialize for UnsafeTypedArray<'r, T> {
    open spec fn js(&self) -> JsValue {
        JsValue::TypedArray(T::spec_kind(), elements_bytes(self.0@, self.0@.len()))
    }

    open spec fn required(&self) -> nat {
        0
    }

    open spec fn placed(&self) -> nat {
        padded(elements_bytes(self.0@, self.0@.len()).len())
    }

    open spec fn record(&self, next: int, end: int) -> SerializedValue {
        (SerializedUntaggedUnsafeTypedArray {
            pointer: (end / element_size(T::spec_kind())) as u32,
            length: self.0@.len() as u32,
            kind: T::spec_kind(),
        }).tagged()
    }

    fn _into_js(&self, arena: &mut PreallocatedArena) -> (value: SerializedValue) {
        assert(self.placed() == padded(elements_bytes(self.0@, self.0@.len()).len()));
        assert(self.required() == 0);
        assert(self.js() == JsValue::TypedArray(
            T::spec_kind(),
            elements_bytes(self.0@, self.0@.len()),
        ));
        assert(self.record(old(arena).next(), old(arena).bytes().len() as int) == (
        SerializedUntaggedUnsafeTypedArray {
            pointer: (old(arena).bytes().len() as int / element_size(T::spec_kind())) as u32,
            length: self.0@.len() as u32,
            kind: T::spec_kind(),
        }).tagged());
        let count = self.0.len();
        let mut bytes: Vec<u8> = Vec::new();
        let mut i: usize = 0;
        while i < count
            invariant
                i <= count,
                count == self.0@.len(),
                bytes@ == elements_bytes(self.0@, i as nat),
            decreases count - i,
        {
            self.0[i].push_bytes(&mut bytes);
            i = i + 1;
        }
        let size = T::element_size_of();
        let kind = T::kind();
        proof {
            law_elements_size(self.0@, count as nat);
            assert(count <= count * size) by (nonlinear_arith)
                requires
                    size >= 1,
            ;
        }
        let address = arena.place(bytes.as_slice());
        let pointer = address / size;
        let length = count as u32;
        proof {
            lemma_aligned(address as int, kind);
            assert(pointer == address as int / element_size(kind));
            lemma_typed_array_at(
                arena.bytes(),
                fresh(old(arena), arena),
                address,
                pointer,
                length,
                kind,
                bytes@,
            );
        }
        (SerializedUntaggedUnsafeTypedArray { pointer, length, kind }).into_value()
    }

    fn _memory_required(&self) -> (size: usize) {
        0
    }

    fn _memory_placed(&self) -> (size: Option<u32>) {
        assert(self.placed() == padded(elements_bytes(self.0@, self.0@.len()).len()));
        let count = self.0.len();
        let size = T::element_size_of();
        proof {
            law_elements_size(self.0@, count as nat);
        }
        if count as u64 > MEMORY_LIMIT {
            proof {
                assert(count <= count * size) by (nonlinear_arith)
                    requires
                        size >= 1,
                ;
            }
            return None;
        }
        let bytes = count as u64 * size as u64;
        if bytes > MEMORY_LIMIT {
            None
        } else {
            padded_size(bytes as usize)
        }
    }

    proof fn law_required_is_aligned(&self) {
    }
}

} // verus!
