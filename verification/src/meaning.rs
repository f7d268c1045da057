//! What a serialized value says, given the memory that it points into.

use vstd::prelude::*;
use vstd::utf8::encode_utf8;

use crate::serialized::{
    key_at, value_at, SerializedUntaggedArray, SerializedUntaggedF64, SerializedUntaggedFunction,
    SerializedUntaggedFunctionOnce, SerializedUntaggedI32, SerializedUntaggedObject,
    SerializedUntaggedReference, SerializedUntaggedString, SerializedUntaggedSymbol,
    SerializedUntaggedUnsafeTypedArray, SerializedValue, Untagged,
};
use crate::tag::Tag;
use crate::value::JsValue;
use crate::wire::stands_at;

verus! {

/// Whether the `length` bytes from `at` on are part of the memory and of `region`.
pub open spec fn covered(bytes: Seq<u8>, region: Set<int>, at: int, length: int) -> bool {
    &&& 0 <= at
    &&& at + length <= bytes.len()
    &&& forall|a: int| at <= a < at + length ==> #[trigger] region.contains(a)
}

/// Whether a key or a string stands for `text`, read from within `region`.
pub open spec fn text_at(
    bytes: Seq<u8>,
    region: Set<int>,
    string: SerializedUntaggedString,
    text: Seq<char>,
) -> bool {
    &&& string.length == encode_utf8(text).len()
    &&& covered(bytes, region, string.pointer as int, string.length as int)
    &&& stands_at(bytes, string.pointer as int, encode_utf8(text))
}

/// The size of an element of a typed array, by the number of the element type.
pub open spec fn element_size(kind: u32) -> int {
    match kind {
        0 => 1,
        1 => 1,
        2 => 2,
        3 => 2,
        4 => 4,
        5 => 4,
        6 => 4,
        _ => 8,
    }
}

/// The element of an array with the given index.
pub open spec fn element_at(bytes: Seq<u8>, pointer: u32, i: int) -> Option<SerializedValue> {
    value_at(bytes, pointer + 16 * i)
}

/// The key of an object with the given index.
pub open spec fn object_key_at(bytes: Seq<u8>, pointer: u32, i: int) -> SerializedUntaggedString {
    key_at(bytes, pointer + 8 * i)
}

/// Whether the serialized value `value` stands for `js` in a memory with the given contents,
/// where everything that it points at lies within `region`.
pub open spec fn js_at(
    bytes: Seq<u8>,
    region: Set<int>,
    value: SerializedValue,
    js: JsValue,
) -> bool
    decreases js,
{
    match js {
        JsValue::Undefined => value.tag == Tag::Undefined,
        JsValue::Null => value.tag == Tag::Null,
        JsValue::Bool(b) => value.tag == if b {
            Tag::True
        } else {
            Tag::False
        },
        JsValue::I32(x) => {
            &&& value.tag == Tag::I32
            &&& SerializedUntaggedI32::untagged(value).value == x
        },
        JsValue::F64(bits) => {
            &&& value.tag == Tag::F64
            &&& SerializedUntaggedF64::untagged(value).value.bits == bits
        },
        JsValue::Str(text) => {
            &&& value.tag == Tag::Str
            &&& text_at(bytes, region, SerializedUntaggedString::untagged(value), text)
        },
        JsValue::Symbol(id) => {
            &&& value.tag == Tag::Symbol
            &&& SerializedUntaggedSymbol::untagged(value).id == id
        },
        JsValue::Reference(refid) => {
            &&& value.tag == Tag::Reference
            &&& SerializedUntaggedReference::untagged(value).refid == refid
        },
        JsValue::Array(items) => {
            let array = SerializedUntaggedArray::untagged(value);
            &&& value.tag == Tag::Array
            &&& array.length == items.len()
            &&& covered(bytes, region, array.pointer as int, 16 * items.len() as int)
            &&& forall|i: int|
                #![trigger element_at(bytes, array.pointer, i)]
                #![trigger items[i]]
                0 <= i < items.len() ==> {
                    &&& element_at(bytes, array.pointer, i) is Some
                    &&& js_at(bytes, region, element_at(bytes, array.pointer, i)->0, items[i])
                }
        },
        JsValue::Object(entries) => {
            let object = SerializedUntaggedObject::untagged(value);
            &&& value.tag == Tag::Object
            &&& object.length == entries.len()
            &&& covered(bytes, region, object.key_pointer as int, 8 * entries.len() as int)
            &&& covered(bytes, region, object.value_pointer as int, 16 * entries.len() as int)
            &&& forall|i: int|
                #![trigger object_key_at(bytes, object.key_pointer, i)]
                #![trigger entries[i]]
                0 <= i < entries.len() ==> text_at(
                    bytes,
                    region,
                    object_key_at(bytes, object.key_pointer, i),
                    entries[i].0,
                )
            &&& forall|i: int|
                #![trigger element_at(bytes, object.value_pointer, i)]
                #![trigger entries[i]]
                0 <= i < entries.len() ==> {
                    &&& element_at(bytes, object.value_pointer, i) is Some
                    &&& js_at(
                        bytes,
                        region,
                        element_at(bytes, object.value_pointer, i)->0,
                        entries[i].1,
                    )
                }
        },
        JsValue::TypedArray(kind, shown) => {
            let array = SerializedUntaggedUnsafeTypedArray::untagged(value);
            let size = element_size(kind);
            &&& value.tag == Tag::UnsafeTypedArray
            &&& array.kind == kind
            &&& array.length * size == shown.len()
            &&& covered(bytes, region, array.pointer * size, shown.len() as int)
            &&& stands_at(bytes, array.pointer * size, shown)
        },
        JsValue::Function(adapter_pointer, pointer, deallocator_pointer) => {
            &&& value.tag == Tag::Function
            &&& SerializedUntaggedFunction::untagged(value) == (SerializedUntaggedFunction {
                adapter_pointer,
                pointer,
                deallocator_pointer,
            })
        },
        JsValue::FunctionOnce(adapter_pointer, pointer, deallocator_pointer) => {
            &&& value.tag == Tag::FunctionOnce
            &&& SerializedUntaggedFunctionOnce::untagged(value)
                == (SerializedUntaggedFunctionOnce {
                adapter_pointer,
                pointer,
                deallocator_pointer,
            })
        },
    }
}

/// Whether two memories agree on `region`.
pub open spec fn agree(before: Seq<u8>, after: Seq<u8>, region: Set<int>) -> bool {
    forall|a: int| #[trigger]
        region.contains(a) && 0 <= a < before.len() ==> a < after.len() && after[a] == before[a]
}

proof fn lemma_covered(
    before: Seq<u8>,
    after: Seq<u8>,
    region: Set<int>,
    wider: Set<int>,
    at: int,
    length: int,
)
    requires
        covered(before, region, at, length),
        region.subset_of(wider),
        agree(before, after, region),
        before.len() <= after.len(),
    ensures
        covered(after, wider, at, length),
        forall|a: int| at <= a < at + length ==> #[trigger] after[a] == before[a],
{
    assert forall|a: int| at <= a < at + length implies #[trigger] wider.contains(a) by {
        assert(region.contains(a));
    }
    assert forall|a: int| at <= a < at + length implies #[trigger] after[a] == before[a] by {
        assert(region.contains(a));
    }
}

proof fn lemma_slots(
    before: Seq<u8>,
    after: Seq<u8>,
    region: Set<int>,
    wider: Set<int>,
    pointer: u32,
    size: int,
    count: int,
)
    requires
        covered(before, region, pointer as int, size * count),
        region.subset_of(wider),
        agree(before, after, region),
        before.len() <= after.len(),
        size == 8 || size == 16,
    ensures
        covered(after, wider, pointer as int, size * count),
        size == 8 ==> forall|i: int|
            #![trigger object_key_at(after, pointer, i)]
            #![trigger object_key_at(before, pointer, i)]
            0 <= i < count ==> object_key_at(after, pointer, i) == object_key_at(
                before,
                pointer,
                i,
            ),
        size == 16 ==> forall|i: int|
            #![trigger element_at(after, pointer, i)]
            #![trigger element_at(before, pointer, i)]
            0 <= i < count ==> element_at(after, pointer, i) == element_at(before, pointer, i),
{
    reveal(value_at);
    reveal(key_at);
    lemma_covered(before, after, region, wider, pointer as int, size * count);
}

pub proof fn lemma_text(
    before: Seq<u8>,
    after: Seq<u8>,
    region: Set<int>,
    wider: Set<int>,
    string: SerializedUntaggedString,
    text: Seq<char>,
)
    requires
        text_at(before, region, string, text),
        region.subset_of(wider),
        agree(before, after, region),
        before.len() <= after.len(),
    ensures
        text_at(after, wider, string, text),
{
    lemma_covered(before, after, region, wider, string.pointer as int, string.length as int);
}

/// What a serialized value says depends on nothing but the memory that it points at: it stays
/// the same while that memory does, whatever else is written and however the memory grows.
pub proof fn law_meaning_is_framed(
    before: Seq<u8>,
    after: Seq<u8>,
    region: Set<int>,
    wider: Set<int>,
    value: SerializedValue,
    js: JsValue,
)
    requires
        js_at(before, region, value, js),
        region.subset_of(wider),
        agree(before, after, region),
        before.len() <= after.len(),
    ensures
        js_at(after, wider, value, js),
    decreases js,
{
    match js {
        JsValue::Str(text) => {
            lemma_text(
                before,
                after,
                region,
                wider,
                SerializedUntaggedString::untagged(value),
                text,
            );
        },
        JsValue::Array(items) => {
            let array = SerializedUntaggedArray::untagged(value);
            lemma_slots(
                before,
                after,
                region,
                wider,
                array.pointer,
                16,
                items.len() as int,
            );
            assert forall|i: int|
                #![trigger element_at(after, array.pointer, i)]
                #![trigger items[i]]
                0 <= i < items.len() implies {
                &&& element_at(after, array.pointer, i) is Some
                &&& js_at(after, wider, element_at(after, array.pointer, i)->0, items[i])
            } by {
                law_meaning_is_framed(
                    before,
                    after,
                    region,
                    wider,
                    element_at(before, array.pointer, i)->0,
                    items[i],
                );
            }
        },
        JsValue::Object(entries) => {
            let object = SerializedUntaggedObject::untagged(value);
            lemma_slots(
                before,
                after,
                region,
                wider,
                object.key_pointer,
                8,
                entries.len() as int,
            );
            lemma_slots(
                before,
                after,
                region,
                wider,
                object.value_pointer,
                16,
                entries.len() as int,
            );
            assert forall|i: int|
                #![trigger object_key_at(after, object.key_pointer, i)]
                #![trigger entries[i]]
                0 <= i < entries.len() implies text_at(
                after,
                wider,
                object_key_at(after, object.key_pointer, i),
                entries[i].0,
            ) by {
                lemma_text(
                    before,
                    after,
                    region,
                    wider,
                    object_key_at(before, object.key_pointer, i),
                    entries[i].0,
                );
            }
            assert forall|i: int|
                #![trigger element_at(after, object.value_pointer, i)]
                #![trigger entries[i]]
                0 <= i < entries.len() implies {
                &&& element_at(after, object.value_pointer, i) is Some
                &&& js_at(after, wider, element_at(after, object.value_pointer, i)->0, entries[i].1)
            } by {
                law_meaning_is_framed(
                    before,
                    after,
                    region,
                    wider,
                    element_at(before, object.value_pointer, i)->0,
                    entries[i].1,
                );
            }
        },
        JsValue::TypedArray(kind, shown) => {
            let array = SerializedUntaggedUnsafeTypedArray::untagged(value);
            lemma_covered(
                before,
                after,
                region,
                wider,
                array.pointer * element_size(kind),
                shown.len() as int,
            );
        },
        _ => {},
    }
}

proof fn lemma_same_text(
    bytes: Seq<u8>,
    region_1: Set<int>,
    region_2: Set<int>,
    string: SerializedUntaggedString,
    text_1: Seq<char>,
    text_2: Seq<char>,
)
    requires
        text_at(bytes, region_1, string, text_1),
        text_at(bytes, region_2, string, text_2),
    ensures
        text_1 == text_2,
{
    assert forall|i: int| 0 <= i < string.length implies #[trigger] encode_utf8(text_1)[i]
        == encode_utf8(text_2)[i] by {
        assert(bytes[string.pointer + i] == encode_utf8(text_1)[i]);
    }
    assert(encode_utf8(text_1) =~= encode_utf8(text_2));
    vstd::utf8::encode_utf8_decode_utf8(text_1);
    vstd::utf8::encode_utf8_decode_utf8(text_2);
}

/// A serialized value stands for one JavaScript value only.
pub proof fn law_meaning_is_unique(
    bytes: Seq<u8>,
    region_1: Set<int>,
    region_2: Set<int>,
    value: SerializedValue,
    js_1: JsValue,
    js_2: JsValue,
)
    requires
        js_at(bytes, region_1, value, js_1),
        js_at(bytes, region_2, value, js_2),
    ensures
        js_1 == js_2,
    decreases js_1,
{
    match (js_1, js_2) {
        (JsValue::Str(text_1), JsValue::Str(text_2)) => {
            lemma_same_text(
                bytes,
                region_1,
                region_2,
                SerializedUntaggedString::untagged(value),
                text_1,
                text_2,
            );
        },
        (JsValue::Array(items_1), JsValue::Array(items_2)) => {
            let array = SerializedUntaggedArray::untagged(value);
            assert forall|i: int| 0 <= i < items_1.len() implies #[trigger] items_1[i]
                == items_2[i] by {
                law_meaning_is_unique(
                    bytes,
                    region_1,
                    region_2,
                    element_at(bytes, array.pointer, i)->0,
                    items_1[i],
                    items_2[i],
                );
            }
            assert(items_1 =~= items_2);
        },
        (JsValue::Object(entries_1), JsValue::Object(entries_2)) => {
            let object = SerializedUntaggedObject::untagged(value);
            assert forall|i: int| 0 <= i < entries_1.len() implies #[trigger] entries_1[i]
                == entries_2[i] by {
                lemma_same_text(
                    bytes,
                    region_1,
                    region_2,
                    object_key_at(bytes, object.key_pointer, i),
                    entries_1[i].0,
                    entries_2[i].0,
                );
                law_meaning_is_unique(
                    bytes,
                    region_1,
                    region_2,
                    element_at(bytes, object.value_pointer, i)->0,
                    entries_1[i].1,
                    entries_2[i].1,
                );
            }
            assert(entries_1 =~= entries_2);
        },
        (JsValue::TypedArray(kind, shown_1), JsValue::TypedArray(_, shown_2)) => {
            let array = SerializedUntaggedUnsafeTypedArray::untagged(value);
            let start = array.pointer * element_size(kind);
            assert forall|i: int| 0 <= i < shown_1.len() implies #[trigger] shown_1[i]
                == shown_2[i] by {
                assert(bytes[start + i] == shown_1[i]);
            }
            assert(shown_1 =~= shown_2);
        },
        _ => {},
    }
}

} // verus!
