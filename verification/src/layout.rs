//! How numbers, tags and serialized values lie in memory, byte by byte.

use vstd::prelude::*;

use crate::memory::{measures, padded, zeros};
use crate::serialized::{
    key_at, value_at, Layout, SerializedUntaggedArray, SerializedUntaggedF64,
    SerializedUntaggedFalse, SerializedUntaggedFunction, SerializedUntaggedFunctionOnce,
    SerializedUntaggedI32, SerializedUntaggedNull, SerializedUntaggedObject,
    SerializedUntaggedReference, SerializedUntaggedString, SerializedUntaggedSymbol,
    SerializedUntaggedTrue, SerializedUntaggedUndefined, SerializedUntaggedUnsafeTypedArray,
    SerializedValue, Untagged,
};
use crate::tag::Tag;
use crate::wire::{
    high_word, low_word, overwritten, stands_at, u16_bytes, u32_at, u32_bytes, u64_at, u64_bytes,
    words,
};

verus! {

/// The number that `n` bytes make from index `at` on: each byte weighs 256 times as much as the one
/// before it.
pub open spec fn number_at(bytes: Seq<u8>, at: int, n: nat) -> int
    decreases n,
{
    if n == 0 {
        0
    } else {
        bytes[at] + 256 * number_at(bytes, at + 1, (n - 1) as nat)
    }
}

/// Whether the memory holds the serialized value at index `at`.
pub open spec fn lies_at(bytes: Seq<u8>, at: int, value: SerializedValue) -> bool {
    &&& number_at(bytes, at, 8) == value.data_1
    &&& number_at(bytes, at + 8, 4) == value.data_2
    &&& bytes[at + 12] == value.tag.spec_code()
}

/// A number is the same wherever its bytes stand.
pub proof fn lemma_same_number(first: Seq<u8>, at_1: int, second: Seq<u8>, at_2: int, n: nat)
    requires
        forall|i: int|
            #![trigger first[at_1 + i]]
            0 <= i < n ==> first[at_1 + i] == second[at_2 + i],
    ensures
        number_at(first, at_1, n) == number_at(second, at_2, n),
    decreases n,
{
    if n > 0 {
        assert(first[at_1 + 0] == second[at_2 + 0]);
        assert forall|i: int| #![trigger first[at_1 + 1 + i]] 0 <= i < n - 1 implies first[at_1 + 1
            + i] == second[at_2 + 1 + i] by {
            assert(first[at_1 + (i + 1)] == second[at_2 + (i + 1)]);
        }
        lemma_same_number(first, at_1 + 1, second, at_2 + 1, (n - 1) as nat);
    }
}

/// Eight bytes make the sum of what their halves make, where the second half weighs two to the
/// power of 32 times as much.
proof fn lemma_number_of_halves(bytes: Seq<u8>, at: int)
    ensures
        number_at(bytes, at, 8) == number_at(bytes, at, 4) + 0x1_0000_0000 * number_at(
            bytes,
            at + 4,
            4,
        ),
{
    reveal_with_fuel(number_at, 5);
    assert(number_at(bytes, at, 8) == bytes[at] + 256 * number_at(bytes, at + 1, 7));
    assert(number_at(bytes, at + 1, 7) == bytes[at + 1] + 256 * number_at(bytes, at + 2, 6));
    assert(number_at(bytes, at + 2, 6) == bytes[at + 2] + 256 * number_at(bytes, at + 3, 5));
    assert(number_at(bytes, at + 3, 5) == bytes[at + 3] + 256 * number_at(bytes, at + 4, 4));
}

/// The bytes of a word make that word.
proof fn lemma_bytes_of_word(x: u32)
    ensures
        u32_bytes(x).len() == 4,
        number_at(u32_bytes(x), 0, 4) == x,
{
    reveal_with_fuel(number_at, 5);
}

/// The bytes of a number make that number.
pub proof fn law_bytes_make_their_number(x: u16, y: u32, z: u64)
    ensures
        u16_bytes(x).len() == 2,
        number_at(u16_bytes(x), 0, 2) == x,
        u32_bytes(y).len() == 4,
        number_at(u32_bytes(y), 0, 4) == y,
        u64_bytes(z).len() == 8,
        number_at(u64_bytes(z), 0, 8) == z,
{
    assert(number_at(u16_bytes(x), 0, 2) == x) by {
        reveal_with_fuel(number_at, 3);
    }
    lemma_bytes_of_word(y);
    lemma_bytes_of_word(low_word(z));
    lemma_bytes_of_word(high_word(z));
    lemma_number_of_halves(u64_bytes(z), 0);
    lemma_same_number(u64_bytes(z), 0, u32_bytes(low_word(z)), 0, 4);
    lemma_same_number(u64_bytes(z), 4, u32_bytes(high_word(z)), 0, 4);
    law_word_sums(z, 0, 0);
}

/// Reading a word from memory gives the word that the bytes there make.
proof fn lemma_word_is_read(bytes: Seq<u8>, at: int)
    ensures
        u32_at(bytes, at) == number_at(bytes, at, 4),
{
    reveal_with_fuel(number_at, 5);
}

/// Reading a number from memory gives the number that the bytes there make.
pub proof fn law_number_is_read(bytes: Seq<u8>, at: int)
    ensures
        u32_at(bytes, at) == number_at(bytes, at, 4),
        u64_at(bytes, at) == number_at(bytes, at, 8),
{
    lemma_word_is_read(bytes, at);
    lemma_word_is_read(bytes, at + 4);
    lemma_number_of_halves(bytes, at);
    law_word_sums(0, u32_at(bytes, at), u32_at(bytes, at + 4));
}

/// The high word of a number weighs two to the power of 32 times as much as the low one.
pub proof fn law_word_sums(x: u64, low: u32, high: u32)
    ensures
        x == low_word(x) + 0x1_0000_0000 * high_word(x),
        words(low, high) == low + 0x1_0000_0000 * high,
{
    assert(low + high * 0x1_0000_0000 <= u64::MAX);
}

/// What stands at an index is the part of the sequence there.
pub proof fn law_part_stands(bytes: Seq<u8>, at: int, part: Seq<u8>)
    ensures
        stands_at(bytes, at, part) <==> 0 <= at && at + part.len() <= bytes.len()
            && bytes.subrange(at, at + part.len()) == part,
{
    if 0 <= at && at + part.len() <= bytes.len() {
        let there = bytes.subrange(at, at + part.len());
        if stands_at(bytes, at, part) {
            assert forall|i: int| 0 <= i < part.len() implies there[i] == part[i] by {
                assert(bytes[at + i] == part[i]);
            }
            assert(there =~= part);
        } else if there == part {
            assert forall|i: int| 0 <= i < part.len() implies #[trigger] bytes[at + i]
                == part[i] by {
                assert(there[i] == bytes[at + i]);
            }
        }
    }
}

/// Writing over a part of a sequence leaves what is before it and after it.
pub proof fn law_only_the_part_is_overwritten(bytes: Seq<u8>, at: int, part: Seq<u8>)
    requires
        0 <= at,
        at + part.len() <= bytes.len(),
    ensures
        overwritten(bytes, at, part) == bytes.take(at) + part + bytes.skip(
            (at + part.len()) as int,
        ),
{
    assert(overwritten(bytes, at, part) =~= bytes.take(at) + part + bytes.skip(
        (at + part.len()) as int,
    ));
}

/// Padding is the least that makes a size a multiple of eight, zeros are zero, and a size that is
/// measured is the size.
pub proof fn law_sizes_of_parts(n: nat, size: u32)
    ensures
        padded(n) % 8 == 0,
        n <= padded(n) < n + 8,
        zeros(n).len() == n,
        forall|i: int| 0 <= i < n ==> #[trigger] zeros(n)[i] == 0,
        measures(Some(size), n) ==> size == n,
        measures(None, n) ==> n > 0xffff_fff8,
        n <= 0xffff_fff8 ==> measures(Some(n as u32), n),
{
}

/// The byte of each tag.
pub proof fn law_tag_bytes()
    ensures
        Tag::Undefined.spec_code() == 0,
        Tag::Null.spec_code() == 1,
        Tag::I32.spec_code() == 2,
        Tag::F64.spec_code() == 3,
        Tag::Str.spec_code() == 4,
        Tag::False.spec_code() == 5,
        Tag::True.spec_code() == 6,
        Tag::Array.spec_code() == 7,
        Tag::Object.spec_code() == 8,
        Tag::Reference.spec_code() == 9,
        Tag::Function.spec_code() == 10,
        Tag::FunctionOnce.spec_code() == 13,
        Tag::UnsafeTypedArray.spec_code() == 14,
        Tag::Symbol.spec_code() == 15,
{
}

/// A serialized value takes sixteen bytes: its data words in order, then its tag.
pub proof fn law_value_lies_in_memory(value: SerializedValue)
    ensures
        value.image().len() == 16,
        lies_at(value.image(), 0, value),
{
    law_bytes_make_their_number(0, value.data_2, value.data_1);
    lemma_same_number(value.image(), 0, u64_bytes(value.data_1), 0, 8);
    lemma_same_number(value.image(), 8, u32_bytes(value.data_2), 0, 4);
}

/// A serialized value is read from memory if and only if it lies there.
pub proof fn law_value_is_read(bytes: Seq<u8>, at: int, value: SerializedValue)
    ensures
        value_at(bytes, at) == Some(value) <==> lies_at(bytes, at, value),
{
    reveal(value_at);
    law_number_is_read(bytes, at);
    law_number_is_read(bytes, at + 8);
    crate::tag::law_tag_codes(value.tag, bytes[at + 12]);
}

/// No serialized value is read where no tag stands, and only there.
pub proof fn law_value_is_missing(bytes: Seq<u8>, at: int)
    ensures
        value_at(bytes, at) is None <==> bytes[at + 12] == 11 || bytes[at + 12] == 12 || bytes[at
            + 12] > 15,
{
    reveal(value_at);
}

/// The key of an object is its address and its length.
pub proof fn law_key_is_read(bytes: Seq<u8>, at: int)
    ensures
        key_at(bytes, at).pointer == number_at(bytes, at, 4),
        key_at(bytes, at).length == number_at(bytes, at + 4, 4),
{
    reveal(key_at);
    law_number_is_read(bytes, at);
    law_number_is_read(bytes, at + 4);
}

/// A word and the signed number that it stands for differ by a multiple of two to the power of 32.
pub proof fn lemma_signed_word(word: u32)
    ensures
        (word as i32) as int % 0x1_0000_0000 == word,
{
    assert(word < 0x8000_0000 ==> word as i32 == word) by (bit_vector);
    assert(word >= 0x8000_0000 ==> word as i32 == word - 0x1_0000_0000) by (bit_vector);
}

/// A signed number and the word that stands for it differ by a multiple of two to the power of 32.
pub proof fn lemma_word_of_signed(x: i32)
    ensures
        x as u32 == x as int % 0x1_0000_0000,
{
    assert(x >= 0 ==> x as u32 == x) by (bit_vector);
    assert(x < 0 ==> x as u32 == x + 0x1_0000_0000) by (bit_vector);
}

/// The size of a serialized value, and of each kind of data that is laid over it.
pub proof fn law_layout_sizes()
    ensures
        SerializedValue::spec_size() == 16,
        SerializedUntaggedUndefined::spec_size() == 0,
        SerializedUntaggedNull::spec_size() == 0,
        SerializedUntaggedI32::spec_size() == 4,
        SerializedUntaggedF64::spec_size() == 8,
        SerializedUntaggedTrue::spec_size() == 0,
        SerializedUntaggedFalse::spec_size() == 0,
        SerializedUntaggedObject::spec_size() == 12,
        SerializedUntaggedString::spec_size() == 8,
        SerializedUntaggedArray::spec_size() == 8,
        SerializedUntaggedSymbol::spec_size() == 4,
        SerializedUntaggedReference::spec_size() == 4,
        SerializedUntaggedFunction::spec_size() == 12,
        SerializedUntaggedFunctionOnce::spec_size() == 12,
        SerializedUntaggedUnsafeTypedArray::spec_size() == 12,
{
}

/// Values that are nothing but their tag have that tag.
pub proof fn law_bare_tags()
    ensures
        SerializedUntaggedUndefined.tagged().tag == Tag::Undefined,
        SerializedUntaggedNull.tagged().tag == Tag::Null,
        SerializedUntaggedTrue.tagged().tag == Tag::True,
        SerializedUntaggedFalse.tagged().tag == Tag::False,
{
}

/// An integer is the first data word, as a signed number.
pub proof fn law_i32_data(data: SerializedUntaggedI32, value: SerializedValue)
    ensures
        data.tagged().tag == Tag::I32,
        data.tagged().data_1 == data.value as int % 0x1_0000_0000,
        SerializedUntaggedI32::untagged(value).value as int % 0x1_0000_0000 == value.data_1
            % 0x1_0000_0000,
{
    lemma_word_of_signed(data.value);
    lemma_signed_word(value.word_0());
}

/// A double is the first two data words.
pub proof fn law_f64_data(data: SerializedUntaggedF64, value: SerializedValue)
    ensures
        data.tagged().tag == Tag::F64,
        data.tagged().data_1 == data.value.bits,
        SerializedUntaggedF64::untagged(value).value.bits == value.data_1,
{
}

/// The number of a symbol is the first data word, as a signed number.
pub proof fn law_symbol_data(data: SerializedUntaggedSymbol, value: SerializedValue)
    ensures
        data.tagged().tag == Tag::Symbol,
        data.tagged().data_1 == data.id as int % 0x1_0000_0000,
        SerializedUntaggedSymbol::untagged(value).id as int % 0x1_0000_0000 == value.data_1
            % 0x1_0000_0000,
{
    lemma_word_of_signed(data.id);
    lemma_signed_word(value.word_0());
}

/// The number of a reference is the first data word, as a signed number.
pub proof fn law_reference_data(data: SerializedUntaggedReference, value: SerializedValue)
    ensures
        data.tagged().tag == Tag::Reference,
        data.tagged().data_1 == data.refid as int % 0x1_0000_0000,
        SerializedUntaggedReference::untagged(value).refid as int % 0x1_0000_0000 == value.data_1
            % 0x1_0000_0000,
{
    lemma_word_of_signed(data.refid);
    lemma_signed_word(value.word_0());
}

/// A string is its address, then its length.
pub proof fn law_string_data(data: SerializedUntaggedString, value: SerializedValue)
    ensures
        data.tagged().tag == Tag::Str,
        data.tagged().data_1 == data.pointer + 0x1_0000_0000 * data.length,
        SerializedUntaggedString::untagged(value).pointer == value.data_1 % 0x1_0000_0000,
        SerializedUntaggedString::untagged(value).length == value.data_1 / 0x1_0000_0000,
{
    law_word_sums(value.data_1, data.pointer, data.length);
}

/// An array is its address, then its length.
pub proof fn law_array_data(data: SerializedUntaggedArray, value: SerializedValue)
    ensures
        data.tagged().tag == Tag::Array,
        data.tagged().data_1 == data.pointer + 0x1_0000_0000 * data.length,
        SerializedUntaggedArray::untagged(value).pointer == value.data_1 % 0x1_0000_0000,
        SerializedUntaggedArray::untagged(value).length == value.data_1 / 0x1_0000_0000,
{
    law_word_sums(value.data_1, data.pointer, data.length);
}

/// An object is the address of its values, its length, and the address of its keys.
pub proof fn law_object_data(data: SerializedUntaggedObject, value: SerializedValue)
    ensures
        data.tagged().tag == Tag::Object,
        data.tagged().data_1 == data.value_pointer + 0x1_0000_0000 * data.length,
        data.tagged().data_2 == data.key_pointer,
        SerializedUntaggedObject::untagged(value).value_pointer == value.data_1 % 0x1_0000_0000,
        SerializedUntaggedObject::untagged(value).length == value.data_1 / 0x1_0000_0000,
        SerializedUntaggedObject::untagged(value).key_pointer == value.data_2,
{
    law_word_sums(value.data_1, data.value_pointer, data.length);
}

/// A function is the address of its adapter, of its closure, and of its deallocator.
pub proof fn law_function_data(data: SerializedUntaggedFunction, value: SerializedValue)
    ensures
        data.tagged().tag == Tag::Function,
        data.tagged().data_1 == data.adapter_pointer + 0x1_0000_0000 * data.pointer,
        data.tagged().data_2 == data.deallocator_pointer,
        SerializedUntaggedFunction::untagged(value).adapter_pointer == value.data_1
            % 0x1_0000_0000,
        SerializedUntaggedFunction::untagged(value).pointer == value.data_1 / 0x1_0000_0000,
        SerializedUntaggedFunction::untagged(value).deallocator_pointer == value.data_2,
{
    law_word_sums(value.data_1, data.adapter_pointer, data.pointer);
}

/// A function that can be called a single time is the address of its adapter, of its closure, and
/// of its deallocator.
pub proof fn law_function_once_data(data: SerializedUntaggedFunctionOnce, value: SerializedValue)
    ensures
        data.tagged().tag == Tag::FunctionOnce,
        data.tagged().data_1 == data.adapter_pointer + 0x1_0000_0000 * data.pointer,
        data.tagged().data_2 == data.deallocator_pointer,
        SerializedUntaggedFunctionOnce::untagged(value).adapter_pointer == value.data_1
            % 0x1_0000_0000,
        SerializedUntaggedFunctionOnce::untagged(value).pointer == value.data_1 / 0x1_0000_0000,
        SerializedUntaggedFunctionOnce::untagged(value).deallocator_pointer == value.data_2,
{
    law_word_sums(value.data_1, data.adapter_pointer, data.pointer);
}

/// A typed array is its address, its length, and the number of its element type.
pub proof fn law_typed_array_data(
    data: SerializedUntaggedUnsafeTypedArray,
    value: SerializedValue,
)
    ensures
        data.tagged().tag == Tag::UnsafeTypedArray,
        data.tagged().data_1 == data.pointer + 0x1_0000_0000 * data.length,
        data.tagged().data_2 == data.kind,
        SerializedUntaggedUnsafeTypedArray::untagged(value).pointer == value.data_1
            % 0x1_0000_0000,
        SerializedUntaggedUnsafeTypedArray::untagged(value).length == value.data_1
            / 0x1_0000_0000,
        SerializedUntaggedUnsafeTypedArray::untagged(value).kind == value.data_2,
{
    law_word_sums(value.data_1, data.pointer, data.length);
}

} // verus!
