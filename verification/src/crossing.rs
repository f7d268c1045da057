//! What JavaScript finds in memory when a Rust value crosses the boundary.
//!
//! Each law starts from what serialization promises, that a serialized value stands for the value
//! that was given, and says which data words and bytes JavaScript reads.

use vstd::arithmetic::power2::pow2;
use vstd::prelude::*;
use vstd::utf8::encode_utf8;

use crate::float::{f32_as_f64, law_u32_as_f64_is_exact, u32_as_f64, Float32, Float64};
use crate::key::{ObjectKey, OrderedKey};
use crate::layout::{
    law_array_data, law_bytes_make_their_number, law_f64_data, law_function_data,
    law_function_once_data, law_i32_data, law_key_is_read, law_object_data, law_part_stands,
    law_reference_data, law_string_data, law_symbol_data, law_typed_array_data, law_value_is_read,
    lemma_same_number, lies_at, number_at,
};
use crate::meaning::{element_at, element_size, js_at, object_key_at, text_at};
use crate::object::{ObjectEntries, SortedEntries};
use crate::owned::{Callback, FunctionTag, JsSerializeOwned, Newtype, NonFunctionTag, Once};
use crate::serialize::JsSerialize;
use crate::serialized::{
    SerializedUntaggedArray, SerializedUntaggedF64, SerializedUntaggedFunction,
    SerializedUntaggedFunctionOnce, SerializedUntaggedI32, SerializedUntaggedObject,
    SerializedUntaggedReference, SerializedUntaggedString, SerializedUntaggedSymbol,
    SerializedUntaggedUnsafeTypedArray, SerializedValue, Untagged,
};
use crate::tag::Tag;
use crate::typed_array::{
    law_element_stands_at_its_index, law_elements_size, TypedElement, UnsafeTypedArray,
};
use crate::value::{JsValue, Null, Number, Reference, Symbol, Undefined, Value};

verus! {

/// The first data word of a serialized value.
pub open spec fn first_word(value: SerializedValue) -> int {
    value.data_1 as int % 0x1_0000_0000
}

/// The second data word of a serialized value.
pub open spec fn second_word(value: SerializedValue) -> int {
    value.data_1 as int / 0x1_0000_0000
}

/// Whether the `length` bytes at `pointer` are the text.
pub open spec fn reads_text(bytes: Seq<u8>, pointer: int, length: int, text: Seq<char>) -> bool {
    &&& 0 <= pointer
    &&& 0 <= length
    &&& pointer + length <= bytes.len()
    &&& bytes.subrange(pointer, pointer + length) == encode_utf8(text)
}

/// Whether the double with the given bits is the number `x`. A double has its sign in its highest
/// bit, then eleven bits of exponent, and 52 bits of fraction; the number is its significand times
/// two to the power of its exponent, which the exponent field gives with an excess.
pub open spec fn is_number(bits: u64, x: nat) -> bool {
    let field = bits as int / 0x10_0000_0000_0000 % 0x800;
    let fraction = bits as int % 0x10_0000_0000_0000;
    &&& bits < 0x8000_0000_0000_0000
    &&& if field == 0 {
        fraction == 0 && x == 0
    } else {
        field <= 1075 && 0x10_0000_0000_0000 + fraction == x * pow2((1075 - field) as nat)
    }
}

/// Whether the double with the given bits is the number that the single-precision number with the
/// given bits is. A single-precision number has its sign in its highest bit, then eight bits of
/// exponent, and 23 bits of fraction.
pub open spec fn is_same_number(bits: u64, single: u32) -> bool {
    let field = bits as int / 0x10_0000_0000_0000 % 0x800;
    let fraction = bits as int % 0x10_0000_0000_0000;
    let single_field = single as int / 0x80_0000 % 0x100;
    let single_fraction = single as int % 0x80_0000;
    &&& bits >= 0x8000_0000_0000_0000 <==> single >= 0x8000_0000
    &&& if single_field == 0xff {
        field == 0x7ff && (fraction == 0 <==> single_fraction == 0)
    } else if single_field != 0 {
        field == single_field + 896 && fraction == single_fraction * 0x2000_0000
    } else if single_fraction == 0 {
        field == 0 && fraction == 0
    } else {
        874 <= field <= 926 && 0x10_0000_0000_0000 + fraction == single_fraction * pow2(
            (926 - field) as nat,
        )
    }
}

/// The double that an integer becomes is the same number.
pub proof fn law_integer_becomes_the_same_double(x: u32)
    ensures
        is_number(u32_as_f64(x), x as nat),
{
    law_u32_as_f64_is_exact(x);
    let double = Float64 { bits: u32_as_f64(x) };
    if double.field() == 0 {
        vstd::arithmetic::power2::lemma_pow2_pos(1074);
        vstd::arithmetic::power2::lemma2_to64();
        vstd::arithmetic::power2::lemma2_to64_rest();
        vstd::arithmetic::power2::lemma_pow2_strictly_increases(52, 1074);
        assert(x == 0) by (nonlinear_arith)
            requires
                double.fraction() == x * pow2(1074),
                double.fraction() < 0x10_0000_0000_0000,
                pow2(52) == 0x10_0000_0000_0000,
                pow2(52) < pow2(1074),
        ;
        assert(x * pow2(1074) == 0) by (nonlinear_arith)
            requires
                x == 0,
        ;
    }
}

/// The double that a single-precision number becomes is the same number, with the same sign.
pub proof fn law_single_becomes_the_same_double(x: Float32)
    ensures
        is_same_number(f32_as_f64(x), x.bits),
{
    crate::float::lemma_f32_fields(x);
}

/// Nothing, and `undefined`, are read as `undefined`.
pub proof fn law_undefined_is_read(
    bytes: Seq<u8>,
    region: Set<int>,
    value: SerializedValue,
    x: (),
)
    requires
        js_at(bytes, region, value, x.js()),
    ensures
        value.tag == Tag::Undefined,
{
}

/// `undefined` is read as `undefined`.
pub proof fn law_explicit_undefined_is_read(
    bytes: Seq<u8>,
    region: Set<int>,
    value: SerializedValue,
    x: Undefined,
)
    requires
        js_at(bytes, region, value, x.js()),
    ensures
        value.tag == Tag::Undefined,
{
}

/// `null` is read as `null`.
pub proof fn law_null_is_read(
    bytes: Seq<u8>,
    region: Set<int>,
    value: SerializedValue,
    x: Null,
)
    requires
        js_at(bytes, region, value, x.js()),
    ensures
        value.tag == Tag::Null,
{
}

/// A boolean is read as itself.
pub proof fn law_bool_is_read(
    bytes: Seq<u8>,
    region: Set<int>,
    value: SerializedValue,
    x: bool,
)
    requires
        js_at(bytes, region, value, x.js()),
    ensures
        x ==> value.tag == Tag::True,
        !x ==> value.tag == Tag::False,
{
}

/// A symbol is read by its number.
pub proof fn law_symbol_is_read(
    bytes: Seq<u8>,
    region: Set<int>,
    value: SerializedValue,
    x: Symbol,
)
    requires
        js_at(bytes, region, value, x.js()),
    ensures
        value.tag == Tag::Symbol,
        first_word(value) == x.0 as int % 0x1_0000_0000,
{
    law_symbol_data(SerializedUntaggedSymbol { id: 0 }, value);
}

/// A reference is read by its number.
pub proof fn law_reference_is_read(
    bytes: Seq<u8>,
    region: Set<int>,
    value: SerializedValue,
    x: Reference,
)
    requires
        js_at(bytes, region, value, x.js()),
    ensures
        value.tag == Tag::Reference,
        first_word(value) == x.refid as int % 0x1_0000_0000,
{
    law_reference_data(SerializedUntaggedReference { refid: 0 }, value);
}

/// An integer of type `i8` is read as the same number.
pub proof fn law_i8_is_read(
    bytes: Seq<u8>,
    region: Set<int>,
    value: SerializedValue,
    x: i8,
)
    requires
        js_at(bytes, region, value, x.js()),
    ensures
        value.tag == Tag::I32,
        first_word(value) == x as int % 0x1_0000_0000,
{
    law_i32_data(SerializedUntaggedI32 { value: 0 }, value);
}

/// An integer of type `i16` is read as the same number.
pub proof fn law_i16_is_read(
    bytes: Seq<u8>,
    region: Set<int>,
    value: SerializedValue,
    x: i16,
)
    requires
        js_at(bytes, region, value, x.js()),
    ensures
        value.tag == Tag::I32,
        first_word(value) == x as int % 0x1_0000_0000,
{
    law_i32_data(SerializedUntaggedI32 { value: 0 }, value);
}

/// An integer of type `i32` is read as the same number.
pub proof fn law_i32_is_read(
    bytes: Seq<u8>,
    region: Set<int>,
    value: SerializedValue,
    x: i32,
)
    requires
        js_at(bytes, region, value, x.js()),
    ensures
        value.tag == Tag::I32,
        first_word(value) == x as int % 0x1_0000_0000,
{
    law_i32_data(SerializedUntaggedI32 { value: 0 }, value);
}

/// An integer of type `u8` is read as the same number.
pub proof fn law_u8_is_read(
    bytes: Seq<u8>,
    region: Set<int>,
    value: SerializedValue,
    x: u8,
)
    requires
        js_at(bytes, region, value, x.js()),
    ensures
        value.tag == Tag::I32,
        first_word(value) == x as int % 0x1_0000_0000,
{
    law_i32_data(SerializedUntaggedI32 { value: 0 }, value);
}

/// An integer of type `u16` is read as the same number.
pub proof fn law_u16_is_read(
    bytes: Seq<u8>,
    region: Set<int>,
    value: SerializedValue,
    x: u16,
)
    requires
        js_at(bytes, region, value, x.js()),
    ensures
        value.tag == Tag::I32,
        first_word(value) == x as int % 0x1_0000_0000,
{
    law_i32_data(SerializedUntaggedI32 { value: 0 }, value);
}

/// An integer of type `u32` is read as a double that is the same number.
pub proof fn law_u32_is_read(
    bytes: Seq<u8>,
    region: Set<int>,
    value: SerializedValue,
    x: u32,
)
    requires
        js_at(bytes, region, value, x.js()),
    ensures
        value.tag == Tag::F64,
        is_number(value.data_1, x as nat),
{
    law_f64_data(SerializedUntaggedF64 { value: Float64 { bits: 0 } }, value);
    law_integer_becomes_the_same_double(x);
}

/// A single-precision number is read as a double that is the same number, with the same sign.
pub proof fn law_f32_is_read(
    bytes: Seq<u8>,
    region: Set<int>,
    value: SerializedValue,
    x: Float32,
)
    requires
        js_at(bytes, region, value, x.js()),
    ensures
        value.tag == Tag::F64,
        is_same_number(value.data_1, x.bits),
{
    law_f64_data(SerializedUntaggedF64 { value: Float64 { bits: 0 } }, value);
    law_single_becomes_the_same_double(x);
}

/// A double is read bit by bit.
pub proof fn law_f64_is_read(
    bytes: Seq<u8>,
    region: Set<int>,
    value: SerializedValue,
    x: Float64,
)
    requires
        js_at(bytes, region, value, x.js()),
    ensures
        value.tag == Tag::F64,
        value.data_1 == x.bits,
{
    law_f64_data(SerializedUntaggedF64 { value: Float64 { bits: 0 } }, value);
}

/// A number is read in the form in which it is stored.
pub proof fn law_number_is_read_back(
    bytes: Seq<u8>,
    region: Set<int>,
    value: SerializedValue,
    x: Number,
)
    requires
        js_at(bytes, region, value, x.js()),
    ensures
        match x {
            Number::I32(n) => value.tag == Tag::I32 && first_word(value) == n as int
                % 0x1_0000_0000,
            Number::F64(double) => value.tag == Tag::F64 && value.data_1 == double.bits,
        },
{
    law_i32_data(SerializedUntaggedI32 { value: 0 }, value);
    law_f64_data(SerializedUntaggedF64 { value: Float64 { bits: 0 } }, value);
}

/// A text is read as the bytes that encode it.
pub proof fn law_str_is_read(
    bytes: Seq<u8>,
    region: Set<int>,
    value: SerializedValue,
    x: &str,
)
    requires
        js_at(bytes, region, value, x.js()),
    ensures
        value.tag == Tag::Str,
        reads_text(bytes, first_word(value), second_word(value), x@),
{
    lemma_text_is_read(bytes, region, value, x@);
}

/// A string is read as the bytes that encode its text.
pub proof fn law_string_is_read(
    bytes: Seq<u8>,
    region: Set<int>,
    value: SerializedValue,
    x: String,
)
    requires
        js_at(bytes, region, value, x.js()),
    ensures
        value.tag == Tag::Str,
        reads_text(bytes, first_word(value), second_word(value), x@),
{
    lemma_text_is_read(bytes, region, value, x@);
}

proof fn lemma_text_is_read(
    bytes: Seq<u8>,
    region: Set<int>,
    value: SerializedValue,
    text: Seq<char>,
)
    requires
        js_at(bytes, region, value, JsValue::Str(text)),
    ensures
        value.tag == Tag::Str,
        reads_text(bytes, first_word(value), second_word(value), text),
{
    law_string_data(SerializedUntaggedString { pointer: 0, length: 0 }, value);
    law_part_stands(bytes, first_word(value), encode_utf8(text));
}

/// What is in an option is read as it is without it, and nothing is read as `null`.
pub proof fn law_option_is_read<T: JsSerialize>(
    bytes: Seq<u8>,
    region: Set<int>,
    value: SerializedValue,
    x: T,
)
    ensures
        js_at(bytes, region, value, Some(x).js()) <==> js_at(bytes, region, value, x.js()),
        js_at(bytes, region, value, None::<T>.js()) <==> value.tag == Tag::Null,
{
}

/// What is borrowed is read as it is.
pub proof fn law_borrowed_is_read<T: ?Sized + JsSerialize>(
    bytes: Seq<u8>,
    region: Set<int>,
    value: SerializedValue,
    x: &T,
)
    ensures
        js_at(bytes, region, value, (&x).js()) <==> js_at(bytes, region, value, x.js()),
{
}

/// A value is read as what it is.
pub proof fn law_value_is_read_back(
    bytes: Seq<u8>,
    region: Set<int>,
    value: SerializedValue,
    x: Value,
)
    requires
        js_at(bytes, region, value, x.js()),
    ensures
        match x {
            Value::Undefined => value.tag == Tag::Undefined,
            Value::Null => value.tag == Tag::Null,
            Value::Bool(b) => value.tag == (if b {
                Tag::True
            } else {
                Tag::False
            }),
            Value::Number(Number::I32(n)) => value.tag == Tag::I32 && first_word(value) == n as int
                % 0x1_0000_0000,
            Value::Number(Number::F64(double)) => value.tag == Tag::F64 && value.data_1
                == double.bits,
            Value::Symbol(symbol) => value.tag == Tag::Symbol && first_word(value)
                == symbol.0 as int % 0x1_0000_0000,
            Value::String(string) => value.tag == Tag::Str && reads_text(
                bytes,
                first_word(value),
                second_word(value),
                string@,
            ),
            Value::Reference(reference) => value.tag == Tag::Reference && first_word(value)
                == reference.refid as int % 0x1_0000_0000,
        },
{
    law_i32_data(SerializedUntaggedI32 { value: 0 }, value);
    law_f64_data(SerializedUntaggedF64 { value: Float64 { bits: 0 } }, value);
    law_symbol_data(SerializedUntaggedSymbol { id: 0 }, value);
    law_reference_data(SerializedUntaggedReference { refid: 0 }, value);
    if let Value::String(string) = x {
        lemma_text_is_read(bytes, region, value, string@);
    }
}

/// Whether a serialized value that stands for `js` lies at an address.
pub open spec fn reads_value(bytes: Seq<u8>, region: Set<int>, at: int, js: JsValue) -> bool {
    exists|element: SerializedValue|
        lies_at(bytes, at, element) && #[trigger] js_at(bytes, region, element, js)
}

proof fn lemma_items_are_read<T: JsSerialize>(
    bytes: Seq<u8>,
    region: Set<int>,
    value: SerializedValue,
    items: Seq<T>,
    js: Seq<JsValue>,
)
    requires
        js_at(bytes, region, value, JsValue::Array(js)),
        js.len() == items.len(),
        forall|i: int| 0 <= i < items.len() ==> #[trigger] js[i] == items[i].js(),
    ensures
        value.tag == Tag::Array,
        second_word(value) == items.len(),
        first_word(value) + 16 * items.len() <= bytes.len(),
        forall|i: int|
            0 <= i < items.len() ==> reads_value(
                bytes,
                region,
                first_word(value) + 16 * i,
                (#[trigger] items[i]).js(),
            ),
{
    law_array_data(SerializedUntaggedArray { pointer: 0, length: 0 }, value);
    let array = SerializedUntaggedArray::untagged(value);
    assert forall|i: int| 0 <= i < items.len() implies reads_value(
        bytes,
        region,
        first_word(value) + 16 * i,
        (#[trigger] items[i]).js(),
    ) by {
        assert(js[i] == items[i].js());
        let element = element_at(bytes, array.pointer, i)->0;
        law_value_is_read(bytes, array.pointer + 16 * i, element);
        assert(js_at(bytes, region, element, items[i].js()));
    }
}

/// The elements of a slice are read in order, one serialized value after the other.
pub proof fn law_slice_is_read<T: JsSerialize>(
    bytes: Seq<u8>,
    region: Set<int>,
    value: SerializedValue,
    items: &[T],
)
    requires
        js_at(bytes, region, value, items.js()),
    ensures
        value.tag == Tag::Array,
        second_word(value) == items@.len(),
        first_word(value) + 16 * items@.len() <= bytes.len(),
        forall|i: int|
            0 <= i < items@.len() ==> reads_value(
                bytes,
                region,
                first_word(value) + 16 * i,
                (#[trigger] items@[i]).js(),
            ),
{
    lemma_items_are_read(bytes, region, value, items@, items.js()->Array_0);
}

/// The elements of a vector are read in order, one serialized value after the other.
pub proof fn law_vector_is_read<T: JsSerialize>(
    bytes: Seq<u8>,
    region: Set<int>,
    value: SerializedValue,
    items: Vec<T>,
)
    requires
        js_at(bytes, region, value, items.js()),
    ensures
        value.tag == Tag::Array,
        second_word(value) == items@.len(),
        first_word(value) + 16 * items@.len() <= bytes.len(),
        forall|i: int|
            0 <= i < items@.len() ==> reads_value(
                bytes,
                region,
                first_word(value) + 16 * i,
                (#[trigger] items@[i]).js(),
            ),
{
    lemma_items_are_read(bytes, region, value, items@, items.js()->Array_0);
}

proof fn lemma_entries_are_read<K: ObjectKey, V: JsSerialize>(
    bytes: Seq<u8>,
    region: Set<int>,
    value: SerializedValue,
    entries: Seq<(K, V)>,
    js: Seq<(Seq<char>, JsValue)>,
)
    requires
        js_at(bytes, region, value, JsValue::Object(js)),
        js.len() == entries.len(),
        forall|i: int|
            0 <= i < entries.len() ==> #[trigger] js[i] == (
                entries[i].0.text(),
                entries[i].1.js(),
            ),
    ensures
        value.tag == Tag::Object,
        second_word(value) == entries.len(),
        value.data_2 + 8 * entries.len() <= bytes.len(),
        first_word(value) + 16 * entries.len() <= bytes.len(),
        forall|i: int|
            #![trigger entries[i]]
            0 <= i < entries.len() ==> {
                let key = value.data_2 + 8 * i;
                &&& reads_text(
                    bytes,
                    number_at(bytes, key, 4),
                    number_at(bytes, key + 4, 4),
                    entries[i].0.text(),
                )
                &&& reads_value(bytes, region, first_word(value) + 16 * i, entries[i].1.js())
            },
{
    law_object_data(
        SerializedUntaggedObject { value_pointer: 0, length: 0, key_pointer: 0 },
        value,
    );
    let object = SerializedUntaggedObject::untagged(value);
    assert forall|i: int| #![trigger entries[i]] 0 <= i < entries.len() implies ({
        let key = value.data_2 + 8 * i;
        &&& reads_text(
            bytes,
            number_at(bytes, key, 4),
            number_at(bytes, key + 4, 4),
            entries[i].0.text(),
        )
        &&& reads_value(bytes, region, first_word(value) + 16 * i, entries[i].1.js())
    }) by {
        assert(js[i] == (entries[i].0.text(), entries[i].1.js()));
        let key = object_key_at(bytes, object.key_pointer, i);
        assert(text_at(bytes, region, key, entries[i].0.text()));
        law_key_is_read(bytes, object.key_pointer + 8 * i);
        law_part_stands(bytes, key.pointer as int, encode_utf8(entries[i].0.text()));
        let element = element_at(bytes, object.value_pointer, i)->0;
        law_value_is_read(bytes, object.value_pointer + 16 * i, element);
        assert(js_at(bytes, region, element, entries[i].1.js()));
    }
}

/// The properties of an object are read in order: the address and the length of the text of each
/// key stand in one table, and the values in another.
pub proof fn law_object_is_read<K: ObjectKey, V: JsSerialize>(
    bytes: Seq<u8>,
    region: Set<int>,
    value: SerializedValue,
    object: ObjectEntries<K, V>,
)
    requires
        js_at(bytes, region, value, object.js()),
    ensures
        value.tag == Tag::Object,
        second_word(value) == object.entries().len(),
        value.data_2 + 8 * object.entries().len() <= bytes.len(),
        first_word(value) + 16 * object.entries().len() <= bytes.len(),
        forall|i: int|
            #![trigger object.entries()[i]]
            0 <= i < object.entries().len() ==> {
                let key = value.data_2 + 8 * i;
                &&& reads_text(
                    bytes,
                    number_at(bytes, key, 4),
                    number_at(bytes, key + 4, 4),
                    object.entries()[i].0.text(),
                )
                &&& reads_value(
                    bytes,
                    region,
                    first_word(value) + 16 * i,
                    object.entries()[i].1.js(),
                )
            },
{
    lemma_entries_are_read(bytes, region, value, object.entries(), object.js()->Object_0);
}

/// The properties of an object are read in order: the address and the length of the text of each
/// key stand in one table, and the values in another.
pub proof fn law_sorted_object_is_read<K: OrderedKey, V: JsSerialize>(
    bytes: Seq<u8>,
    region: Set<int>,
    value: SerializedValue,
    object: SortedEntries<K, V>,
)
    requires
        js_at(bytes, region, value, object.js()),
    ensures
        value.tag == Tag::Object,
        second_word(value) == object.entries().len(),
        value.data_2 + 8 * object.entries().len() <= bytes.len(),
        first_word(value) + 16 * object.entries().len() <= bytes.len(),
        forall|i: int|
            #![trigger object.entries()[i]]
            0 <= i < object.entries().len() ==> {
                let key = value.data_2 + 8 * i;
                &&& reads_text(
                    bytes,
                    number_at(bytes, key, 4),
                    number_at(bytes, key + 4, 4),
                    object.entries()[i].0.text(),
                )
                &&& reads_value(
                    bytes,
                    region,
                    first_word(value) + 16 * i,
                    object.entries()[i].1.js(),
                )
            },
{
    lemma_entries_are_read(bytes, region, value, object.entries(), object.js()->Object_0);
}

/// The text of a string that is a key is the string.
pub proof fn law_key_is_its_text(string: String, text: &str)
    ensures
        string.text() == string@,
        text.text() == text@,
{
}

/// Each entry of an object becomes the property that has its key as its name, in order.
pub proof fn law_object_of_strings_has_its_keys<V: JsSerialize>(object: ObjectEntries<String, V>)
    ensures
        object.js() is Object,
        object.js()->Object_0.len() == object.entries().len(),
        forall|i: int|
            0 <= i < object.entries().len() ==> (#[trigger] object.js()->Object_0[i]).0
                == object.entries()[i].0@,
        forall|i: int|
            0 <= i < object.entries().len() ==> (#[trigger] object.js()->Object_0[i]).1
                == object.entries()[i].1.js(),
{
}

/// Each entry of an object becomes the property that has its key as its name, in order.
pub proof fn law_object_of_texts_has_its_keys<V: JsSerialize>(object: ObjectEntries<&str, V>)
    ensures
        object.js() is Object,
        object.js()->Object_0.len() == object.entries().len(),
        forall|i: int|
            0 <= i < object.entries().len() ==> (#[trigger] object.js()->Object_0[i]).0
                == object.entries()[i].0@,
        forall|i: int|
            0 <= i < object.entries().len() ==> (#[trigger] object.js()->Object_0[i]).1
                == object.entries()[i].1.js(),
{
}

/// Each entry of an object becomes the property that has its key as its name, in order.
pub proof fn law_sorted_object_of_strings_has_its_keys<V: JsSerialize>(
    object: SortedEntries<String, V>,
)
    ensures
        object.js() is Object,
        object.js()->Object_0.len() == object.entries().len(),
        forall|i: int|
            0 <= i < object.entries().len() ==> (#[trigger] object.js()->Object_0[i]).0
                == object.entries()[i].0@,
        forall|i: int|
            0 <= i < object.entries().len() ==> (#[trigger] object.js()->Object_0[i]).1
                == object.entries()[i].1.js(),
{
}

/// Each entry of an object becomes the property that has its key as its name, in order.
pub proof fn law_sorted_object_of_texts_has_its_keys<V: JsSerialize>(object: SortedEntries<&str, V>)
    ensures
        object.js() is Object,
        object.js()->Object_0.len() == object.entries().len(),
        forall|i: int|
            0 <= i < object.entries().len() ==> (#[trigger] object.js()->Object_0[i]).0
                == object.entries()[i].0@,
        forall|i: int|
            0 <= i < object.entries().len() ==> (#[trigger] object.js()->Object_0[i]).1
                == object.entries()[i].1.js(),
{
}

proof fn lemma_shown_element<T: TypedElement>(
    bytes: Seq<u8>,
    region: Set<int>,
    value: SerializedValue,
    kind: u32,
    shown: Seq<u8>,
    items: Seq<T>,
    size: int,
    i: int,
)
    requires
        js_at(bytes, region, value, JsValue::TypedArray(kind, shown)),
        kind == T::spec_kind(),
        shown == crate::typed_array::elements_bytes(items, items.len()),
        size == element_size(kind),
        0 <= i < items.len(),
    ensures
        number_at(bytes, (first_word(value) + i) * size, size as nat) == number_at(
            items[i].element_bytes(),
            0,
            size as nat,
        ),
{
    law_typed_array_data(
        SerializedUntaggedUnsafeTypedArray { pointer: 0, length: 0, kind: 0 },
        value,
    );
    law_element_stands_at_its_index(items, items.len(), i);
    let element = items[i].element_bytes();
    items[i].lemma_element_size();
    let start = first_word(value) * size;
    assert((first_word(value) + i) * size == start + i * size) by (nonlinear_arith)
        requires
            start == first_word(value) * size,
    ;
    assert((i + 1) * size == i * size + size) by (nonlinear_arith);
    assert(0 <= i * size) by (nonlinear_arith)
        requires
            0 <= i,
            0 <= size,
    ;
    assert forall|k: int| 0 <= k < size implies #[trigger] bytes[start + i * size + k]
        == element[k] by {
        assert(bytes[start + (i * size + k)] == shown[i * size + k]);
        assert(shown.subrange(i * size, (i + 1) * size)[k] == element[k]);
    }
    lemma_same_number(bytes, start + i * size, element, 0, size as nat);
}

proof fn lemma_shown_length<T: TypedElement>(
    bytes: Seq<u8>,
    region: Set<int>,
    value: SerializedValue,
    kind: u32,
    shown: Seq<u8>,
    items: Seq<T>,
)
    requires
        js_at(bytes, region, value, JsValue::TypedArray(kind, shown)),
        kind == T::spec_kind(),
        shown == crate::typed_array::elements_bytes(items, items.len()),
    ensures
        value.tag == Tag::UnsafeTypedArray,
        value.data_2 == kind,
        second_word(value) == items.len(),
        first_word(value) * element_size(kind) + items.len() * element_size(kind) <= bytes.len(),
{
    law_typed_array_data(
        SerializedUntaggedUnsafeTypedArray { pointer: 0, length: 0, kind: 0 },
        value,
    );
    law_elements_size(items, items.len());
    let size = element_size(kind);
    assert(second_word(value) == items.len()) by (nonlinear_arith)
        requires
            second_word(value) * size == items.len() * size,
            size >= 1,
    ;
}

/// The bytes of an element of type `u8` make the element.
pub proof fn law_u8_element_makes_its_bytes(x: u8)
    ensures
        x.element_bytes().len() == 1,
        number_at(x.element_bytes(), 0, 1) == x,
{
    reveal_with_fuel(number_at, 2);
}

/// A slice of type `u8` is read element by element, each as the number that it is.
pub proof fn law_u8_array_is_read(
    bytes: Seq<u8>,
    region: Set<int>,
    value: SerializedValue,
    array: UnsafeTypedArray<'_, u8>,
)
    requires
        js_at(bytes, region, value, array.js()),
    ensures
        value.tag == Tag::UnsafeTypedArray,
        value.data_2 == 0,
        second_word(value) == array.0@.len(),
        (first_word(value) + array.0@.len()) * 1 <= bytes.len(),
        forall|i: int|
            0 <= i < array.0@.len() ==> {
                let x = #[trigger] array.0@[i];
                number_at(bytes, (first_word(value) + i) * 1, 1) == x
            },
{
    let items = array.0@;
    let shown = array.js()->TypedArray_1;
    lemma_shown_length(bytes, region, value, 0, shown, items);
    assert forall|i: int| 0 <= i < items.len() implies ({
        let x = #[trigger] items[i];
        number_at(bytes, (first_word(value) + i) * 1, 1) == x
    }) by {
        lemma_shown_element(bytes, region, value, 0, shown, items, 1, i);
        law_u8_element_makes_its_bytes(items[i]);
    }
}

/// The bytes of an element of type `i8` make the element.
pub proof fn law_i8_element_makes_its_bytes(x: i8)
    ensures
        x.element_bytes().len() == 1,
        number_at(x.element_bytes(), 0, 1) == x as int % 0x100,
{
    reveal_with_fuel(number_at, 2);
    assert(x >= 0 ==> x as u8 == x) by (bit_vector);
    assert(x < 0 ==> x as u8 == x + 0x100) by (bit_vector);
}

/// A slice of type `i8` is read element by element, each as the number that it is.
pub proof fn law_i8_array_is_read(
    bytes: Seq<u8>,
    region: Set<int>,
    value: SerializedValue,
    array: UnsafeTypedArray<'_, i8>,
)
    requires
        js_at(bytes, region, value, array.js()),
    ensures
        value.tag == Tag::UnsafeTypedArray,
        value.data_2 == 1,
        second_word(value) == array.0@.len(),
        (first_word(value) + array.0@.len()) * 1 <= bytes.len(),
        forall|i: int|
            0 <= i < array.0@.len() ==> {
                let x = #[trigger] array.0@[i];
                number_at(bytes, (first_word(value) + i) * 1, 1) == x as int % 0x100
            },
{
    let items = array.0@;
    let shown = array.js()->TypedArray_1;
    lemma_shown_length(bytes, region, value, 1, shown, items);
    assert forall|i: int| 0 <= i < items.len() implies ({
        let x = #[trigger] items[i];
        number_at(bytes, (first_word(value) + i) * 1, 1) == x as int % 0x100
    }) by {
        lemma_shown_element(bytes, region, value, 1, shown, items, 1, i);
        law_i8_element_makes_its_bytes(items[i]);
    }
}

/// The bytes of an element of type `u16` make the element.
pub proof fn law_u16_element_makes_its_bytes(x: u16)
    ensures
        x.element_bytes().len() == 2,
        number_at(x.element_bytes(), 0, 2) == x,
{
    law_bytes_make_their_number(x, 0, 0);
}

/// A slice of type `u16` is read element by element, each as the number that it is.
pub proof fn law_u16_array_is_read(
    bytes: Seq<u8>,
    region: Set<int>,
    value: SerializedValue,
    array: UnsafeTypedArray<'_, u16>,
)
    requires
        js_at(bytes, region, value, array.js()),
    ensures
        value.tag == Tag::UnsafeTypedArray,
        value.data_2 == 2,
        second_word(value) == array.0@.len(),
        (first_word(value) + array.0@.len()) * 2 <= bytes.len(),
        forall|i: int|
            0 <= i < array.0@.len() ==> {
                let x = #[trigger] array.0@[i];
                number_at(bytes, (first_word(value) + i) * 2, 2) == x
            },
{
    let items = array.0@;
    let shown = array.js()->TypedArray_1;
    lemma_shown_length(bytes, region, value, 2, shown, items);
    assert forall|i: int| 0 <= i < items.len() implies ({
        let x = #[trigger] items[i];
        number_at(bytes, (first_word(value) + i) * 2, 2) == x
    }) by {
        lemma_shown_element(bytes, region, value, 2, shown, items, 2, i);
        law_u16_element_makes_its_bytes(items[i]);
    }
}

/// The bytes of an element of type `i16` make the element.
pub proof fn law_i16_element_makes_its_bytes(x: i16)
    ensures
        x.element_bytes().len() == 2,
        number_at(x.element_bytes(), 0, 2) == x as int % 0x1_0000,
{
    law_bytes_make_their_number(x as u16, 0, 0);
    assert(x >= 0 ==> x as u16 == x) by (bit_vector);
    assert(x < 0 ==> x as u16 == x + 0x1_0000) by (bit_vector);
}

/// A slice of type `i16` is read element by element, each as the number that it is.
pub proof fn law_i16_array_is_read(
    bytes: Seq<u8>,
    region: Set<int>,
    value: SerializedValue,
    array: UnsafeTypedArray<'_, i16>,
)
    requires
        js_at(bytes, region, value, array.js()),
    ensures
        value.tag == Tag::UnsafeTypedArray,
        value.data_2 == 3,
        second_word(value) == array.0@.len(),
        (first_word(value) + array.0@.len()) * 2 <= bytes.len(),
        forall|i: int|
            0 <= i < array.0@.len() ==> {
                let x = #[trigger] array.0@[i];
                number_at(bytes, (first_word(value) + i) * 2, 2) == x as int % 0x1_0000
            },
{
    let items = array.0@;
    let shown = array.js()->TypedArray_1;
    lemma_shown_length(bytes, region, value, 3, shown, items);
    assert forall|i: int| 0 <= i < items.len() implies ({
        let x = #[trigger] items[i];
        number_at(bytes, (first_word(value) + i) * 2, 2) == x as int % 0x1_0000
    }) by {
        lemma_shown_element(bytes, region, value, 3, shown, items, 2, i);
        law_i16_element_makes_its_bytes(items[i]);
    }
}

/// The bytes of an element of type `u32` make the element.
pub proof fn law_u32_element_makes_its_bytes(x: u32)
    ensures
        x.element_bytes().len() == 4,
        number_at(x.element_bytes(), 0, 4) == x,
{
    law_bytes_make_their_number(0, x, 0);
}

/// A slice of type `u32` is read element by element, each as the number that it is.
pub proof fn law_u32_array_is_read(
    bytes: Seq<u8>,
    region: Set<int>,
    value: SerializedValue,
    array: UnsafeTypedArray<'_, u32>,
)
    requires
        js_at(bytes, region, value, array.js()),
    ensures
        value.tag == Tag::UnsafeTypedArray,
        value.data_2 == 4,
        second_word(value) == array.0@.len(),
        (first_word(value) + array.0@.len()) * 4 <= bytes.len(),
        forall|i: int|
            0 <= i < array.0@.len() ==> {
                let x = #[trigger] array.0@[i];
                number_at(bytes, (first_word(value) + i) * 4, 4) == x
            },
{
    let items = array.0@;
    let shown = array.js()->TypedArray_1;
    lemma_shown_length(bytes, region, value, 4, shown, items);
    assert forall|i: int| 0 <= i < items.len() implies ({
        let x = #[trigger] items[i];
        number_at(bytes, (first_word(value) + i) * 4, 4) == x
    }) by {
        lemma_shown_element(bytes, region, value, 4, shown, items, 4, i);
        law_u32_element_makes_its_bytes(items[i]);
    }
}

/// The bytes of an element of type `i32` make the element.
pub proof fn law_i32_element_makes_its_bytes(x: i32)
    ensures
        x.element_bytes().len() == 4,
        number_at(x.element_bytes(), 0, 4) == x as int % 0x1_0000_0000,
{
    law_bytes_make_their_number(0, x as u32, 0);
    crate::layout::lemma_word_of_signed(x);
}

/// A slice of type `i32` is read element by element, each as the number that it is.
pub proof fn law_i32_array_is_read(
    bytes: Seq<u8>,
    region: Set<int>,
    value: SerializedValue,
    array: UnsafeTypedArray<'_, i32>,
)
    requires
        js_at(bytes, region, value, array.js()),
    ensures
        value.tag == Tag::UnsafeTypedArray,
        value.data_2 == 5,
        second_word(value) == array.0@.len(),
        (first_word(value) + array.0@.len()) * 4 <= bytes.len(),
        forall|i: int|
            0 <= i < array.0@.len() ==> {
                let x = #[trigger] array.0@[i];
                number_at(bytes, (first_word(value) + i) * 4, 4) == x as int % 0x1_0000_0000
            },
{
    let items = array.0@;
    let shown = array.js()->TypedArray_1;
    lemma_shown_length(bytes, region, value, 5, shown, items);
    assert forall|i: int| 0 <= i < items.len() implies ({
        let x = #[trigger] items[i];
        number_at(bytes, (first_word(value) + i) * 4, 4) == x as int % 0x1_0000_0000
    }) by {
        lemma_shown_element(bytes, region, value, 5, shown, items, 4, i);
        law_i32_element_makes_its_bytes(items[i]);
    }
}

/// The bytes of an element of type `Float32` make the element.
pub proof fn law_float32_element_makes_its_bytes(x: Float32)
    ensures
        x.element_bytes().len() == 4,
        number_at(x.element_bytes(), 0, 4) == x.bits,
{
    law_bytes_make_their_number(0, x.bits, 0);
}

/// A slice of type `Float32` is read element by element, each as the number that it is.
pub proof fn law_float32_array_is_read(
    bytes: Seq<u8>,
    region: Set<int>,
    value: SerializedValue,
    array: UnsafeTypedArray<'_, Float32>,
)
    requires
        js_at(bytes, region, value, array.js()),
    ensures
        value.tag == Tag::UnsafeTypedArray,
        value.data_2 == 6,
        second_word(value) == array.0@.len(),
        (first_word(value) + array.0@.len()) * 4 <= bytes.len(),
        forall|i: int|
            0 <= i < array.0@.len() ==> {
                let x = #[trigger] array.0@[i];
                number_at(bytes, (first_word(value) + i) * 4, 4) == x.bits
            },
{
    let items = array.0@;
    let shown = array.js()->TypedArray_1;
    lemma_shown_length(bytes, region, value, 6, shown, items);
    assert forall|i: int| 0 <= i < items.len() implies ({
        let x = #[trigger] items[i];
        number_at(bytes, (first_word(value) + i) * 4, 4) == x.bits
    }) by {
        lemma_shown_element(bytes, region, value, 6, shown, items, 4, i);
        law_float32_element_makes_its_bytes(items[i]);
    }
}

/// The bytes of an element of type `Float64` make the element.
pub proof fn law_float64_element_makes_its_bytes(x: Float64)
    ensures
        x.element_bytes().len() == 8,
        number_at(x.element_bytes(), 0, 8) == x.bits,
{
    law_bytes_make_their_number(0, 0, x.bits);
}

/// A slice of type `Float64` is read element by element, each as the number that it is.
pub proof fn law_float64_array_is_read(
    bytes: Seq<u8>,
    region: Set<int>,
    value: SerializedValue,
    array: UnsafeTypedArray<'_, Float64>,
)
    requires
        js_at(bytes, region, value, array.js()),
    ensures
        value.tag == Tag::UnsafeTypedArray,
        value.data_2 == 7,
        second_word(value) == array.0@.len(),
        (first_word(value) + array.0@.len()) * 8 <= bytes.len(),
        forall|i: int|
            0 <= i < array.0@.len() ==> {
                let x = #[trigger] array.0@[i];
                number_at(bytes, (first_word(value) + i) * 8, 8) == x.bits
            },
{
    let items = array.0@;
    let shown = array.js()->TypedArray_1;
    lemma_shown_length(bytes, region, value, 7, shown, items);
    assert forall|i: int| 0 <= i < items.len() implies ({
        let x = #[trigger] items[i];
        number_at(bytes, (first_word(value) + i) * 8, 8) == x.bits
    }) by {
        lemma_shown_element(bytes, region, value, 7, shown, items, 8, i);
        law_float64_element_makes_its_bytes(items[i]);
    }
}

/// What is not a callback is read as it is without its mark, and takes the same memory.
pub proof fn law_marked_value_is_read<T: JsSerialize>(
    bytes: Seq<u8>,
    region: Set<int>,
    value: SerializedValue,
    x: Newtype<(NonFunctionTag, ()), T>,
)
    ensures
        js_at(bytes, region, value, x.owned_js()) <==> js_at(bytes, region, value, x.value.js()),
        x.owned_required() == x.value.required(),
        x.owned_placed() == x.value.placed(),
{
}

/// Whether a serialized value is a function with the addresses that a callback holds: JavaScript
/// calls the first, hands it the second, and frees the second with the third.
pub open spec fn reads_callback(value: SerializedValue, callback: Callback) -> bool {
    &&& first_word(value) == callback.adapter_pointer
    &&& second_word(value) == callback.pointer
    &&& value.data_2 == callback.deallocator_pointer
}

/// A callback is read as a function with its addresses.
pub proof fn law_callback_is_read<A>(
    bytes: Seq<u8>,
    region: Set<int>,
    value: SerializedValue,
    x: Newtype<(FunctionTag, A), Callback>,
)
    requires
        js_at(bytes, region, value, x.owned_js()),
    ensures
        value.tag == Tag::Function,
        reads_callback(value, x.value),
        x.owned_required() == 0,
        x.owned_placed() == 0,
{
    law_function_data(
        SerializedUntaggedFunction { adapter_pointer: 0, pointer: 0, deallocator_pointer: 0 },
        value,
    );
}

/// A callback that can be called a single time is read as such a function with its addresses.
pub proof fn law_single_callback_is_read<A>(
    bytes: Seq<u8>,
    region: Set<int>,
    value: SerializedValue,
    x: Newtype<(FunctionTag, A), Once<Callback>>,
)
    requires
        js_at(bytes, region, value, x.owned_js()),
    ensures
        value.tag == Tag::FunctionOnce,
        reads_callback(value, x.value.0),
        x.owned_required() == 0,
        x.owned_placed() == 0,
{
    law_function_once_data(
        SerializedUntaggedFunctionOnce { adapter_pointer: 0, pointer: 0, deallocator_pointer: 0 },
        value,
    );
}

/// A callback in an option is read as a function with its addresses, and none is read as `null`.
pub proof fn law_optional_callback_is_read<A>(
    bytes: Seq<u8>,
    region: Set<int>,
    value: SerializedValue,
    x: Newtype<(FunctionTag, A), Option<Callback>>,
)
    requires
        js_at(bytes, region, value, x.owned_js()),
    ensures
        match x.value {
            Some(callback) => value.tag == Tag::Function && reads_callback(value, callback),
            None => value.tag == Tag::Null,
        },
        x.owned_required() == 0,
        x.owned_placed() == 0,
{
    law_function_data(
        SerializedUntaggedFunction { adapter_pointer: 0, pointer: 0, deallocator_pointer: 0 },
        value,
    );
}

} // verus!
