//! What Rust gets when a JavaScript value crosses the boundary.
//!
//! Each law says how a deserialized value, the arguments of a callback, or the blocks that are
//! taken, follow from the data words and the bytes that JavaScript has written.

use vstd::prelude::*;
use vstd::utf8::{decode_utf8_encode_utf8, encode_utf8, valid_utf8};

use crate::call::{
    arguments_at, arguments_js, arguments_ready, arguments_taken, decodes, Arguments, CallError,
    FromValue,
};
use crate::crossing::{first_word, second_word};
use crate::deserialize::{
    array_js, array_ready, array_taken, elements_owned, string_owned, string_ready, string_text,
    value_js, value_owned, value_ready, ArrayDeserializer,
};
use crate::deserialize_object::{
    entries_owned, entry_owned, entry_ready, object_js, object_ready, ObjectDeserializer,
};
use crate::layout::{
    law_f64_data, law_i32_data, law_key_is_read, law_number_is_read, law_reference_data,
    law_string_data, law_symbol_data, law_value_is_read, lies_at, number_at,
};
use crate::meaning::{element_at, object_key_at};
use crate::serialize::JsSerialize;
use crate::serialized::{
    SerializedUntaggedArray, SerializedUntaggedF64, SerializedUntaggedI32,
    SerializedUntaggedObject, SerializedUntaggedReference, SerializedUntaggedString,
    SerializedUntaggedSymbol, SerializedValue, Untagged,
};
use crate::float::Float64;
use crate::tag::Tag;
use crate::value::{JsValue, Number, Reference, Symbol, Value};

verus! {

/// Whether `text` is what the `length` bytes at `pointer` encode.
pub open spec fn decodes_text(bytes: Seq<u8>, pointer: int, length: int, text: Seq<char>) -> bool {
    if length == 0 {
        text.len() == 0
    } else {
        encode_utf8(text) == bytes.subrange(pointer, pointer + length)
    }
}

/// Whether `value` is what JavaScript has sent as the serialized value `sent`.
pub open spec fn arrives(bytes: Seq<u8>, sent: SerializedValue, value: Value) -> bool {
    match value {
        Value::Undefined => sent.tag == Tag::Undefined,
        Value::Null => sent.tag == Tag::Null,
        Value::Bool(true) => sent.tag == Tag::True,
        Value::Bool(false) => sent.tag == Tag::False,
        Value::Number(Number::I32(n)) => sent.tag == Tag::I32 && n as int % 0x1_0000_0000
            == first_word(sent),
        Value::Number(Number::F64(double)) => sent.tag == Tag::F64 && double.bits == sent.data_1,
        Value::Symbol(symbol) => sent.tag == Tag::Symbol && symbol.0 as int % 0x1_0000_0000
            == first_word(sent),
        Value::String(string) => sent.tag == Tag::Str && decodes_text(
            bytes,
            first_word(sent),
            second_word(sent),
            string@,
        ),
        Value::Reference(reference) => sent.tag == Tag::Reference && reference.refid as int
            % 0x1_0000_0000 == first_word(sent),
    }
}

/// A string is the text that its bytes encode.
pub proof fn law_text_arrives(
    bytes: Seq<u8>,
    blocks: Map<u32, u32>,
    string: SerializedUntaggedString,
)
    requires
        string_ready(bytes, blocks, string),
    ensures
        decodes_text(
            bytes,
            string.pointer as int,
            string.length as int,
            string_text(bytes, string),
        ),
{
    if string.length != 0 {
        decode_utf8_encode_utf8(
            bytes.subrange(string.pointer as int, string.pointer + string.length),
        );
    }
}

/// The value that comes of a serialized value is the one that JavaScript has sent.
pub proof fn law_value_arrives(
    bytes: Seq<u8>,
    blocks: Map<u32, u32>,
    sent: SerializedValue,
    value: Value,
)
    requires
        value_ready(bytes, blocks, sent),
        value@ == value_js(bytes, sent),
    ensures
        arrives(bytes, sent, value),
{
    law_i32_data(SerializedUntaggedI32 { value: 0 }, sent);
    law_f64_data(SerializedUntaggedF64 { value: Float64 { bits: 0 } }, sent);
    law_symbol_data(SerializedUntaggedSymbol { id: 0 }, sent);
    law_reference_data(SerializedUntaggedReference { refid: 0 }, sent);
    law_string_data(SerializedUntaggedString { pointer: 0, length: 0 }, sent);
    if sent.tag == Tag::Str {
        law_text_arrives(bytes, blocks, SerializedUntaggedString::untagged(sent));
    }
}

/// The values that can be deserialized are those that are neither functions nor made of other
/// values, and of the strings those that are empty, or encode a text in a block of their own with a
/// byte to spare.
pub proof fn law_values_that_can_arrive(
    bytes: Seq<u8>,
    blocks: Map<u32, u32>,
    sent: SerializedValue,
)
    ensures
        value_ready(bytes, blocks, sent) <==> {
            ||| sent.tag == Tag::Undefined
            ||| sent.tag == Tag::Null
            ||| sent.tag == Tag::I32
            ||| sent.tag == Tag::F64
            ||| sent.tag == Tag::False
            ||| sent.tag == Tag::True
            ||| sent.tag == Tag::Reference
            ||| sent.tag == Tag::Symbol
            ||| sent.tag == Tag::Str && (second_word(sent) == 0 || (blocks.contains_key(
                first_word(sent) as u32,
            ) && blocks[first_word(sent) as u32] == second_word(sent) + 1 && valid_utf8(
                bytes.subrange(first_word(sent), first_word(sent) + second_word(sent)),
            )))
        },
{
    law_string_data(SerializedUntaggedString { pointer: 0, length: 0 }, sent);
}

/// The only block that goes with a value is that of a string that is not empty.
pub proof fn law_block_of_value(sent: SerializedValue, p: u32)
    ensures
        value_owned(sent).contains(p) <==> sent.tag == Tag::Str && second_word(sent) != 0 && p
            == first_word(sent),
{
    law_string_data(SerializedUntaggedString { pointer: 0, length: 0 }, sent);
}

/// The only block that goes with a key is that of its text, if it is not empty.
pub proof fn law_block_of_text(string: SerializedUntaggedString, p: u32)
    ensures
        string_owned(string).contains(p) <==> string.length != 0 && p == string.pointer,
{
}

/// The elements of an array come of the serialized values that lie one after the other from its
/// address on.
pub proof fn law_elements_arrive(
    bytes: Seq<u8>,
    array: SerializedUntaggedArray,
    i: int,
    sent: SerializedValue,
)
    requires
        0 <= i < array.length,
        lies_at(bytes, array.pointer + 16 * i, sent),
    ensures
        array_js(bytes, array).len() == array.length,
        array_js(bytes, array)[i] == value_js(bytes, sent),
{
    law_value_is_read(bytes, array.pointer + 16 * i, sent);
}

/// An array can be taken over if it has a block of its own, of the size of its elements, and its
/// elements lie there, can be deserialized, and do not share their blocks.
pub proof fn law_arrays_that_can_arrive(
    bytes: Seq<u8>,
    blocks: Map<u32, u32>,
    array: SerializedUntaggedArray,
    sent: Seq<SerializedValue>,
)
    requires
        sent.len() == array.length,
        array.length != 0 ==> blocks.contains_key(array.pointer) && blocks[array.pointer] == 16
            * array.length,
        forall|i: int|
            #![trigger sent[i]]
            0 <= i < sent.len() ==> {
                &&& lies_at(bytes, array.pointer + 16 * i, sent[i])
                &&& value_ready(bytes, blocks, sent[i])
                &&& !value_owned(sent[i]).contains(array.pointer)
            },
        forall|i: int, j: int|
            0 <= i < j < sent.len() ==> (#[trigger] value_owned(sent[i])).disjoint(
                #[trigger] value_owned(sent[j]),
            ),
    ensures
        array_ready(bytes, blocks, array),
{
    assert forall|i: int| #![trigger element_at(bytes, array.pointer, i)] 0 <= i
        < array.length implies element_at(bytes, array.pointer, i) == Some(sent[i]) by {
        law_value_is_read(bytes, array.pointer + 16 * i, sent[i]);
    }
    assert forall|i: int, j: int|
        #![trigger element_at(bytes, array.pointer, i), element_at(bytes, array.pointer, j)]
        0 <= i < j < array.length implies value_owned(
        element_at(bytes, array.pointer, i)->0,
    ).disjoint(value_owned(element_at(bytes, array.pointer, j)->0)) by {
        assert(value_owned(sent[i]).disjoint(value_owned(sent[j])));
    }
}

/// The blocks that go with some elements of an array are those that go with one of them.
pub proof fn law_blocks_of_elements(
    bytes: Seq<u8>,
    pointer: u32,
    from: int,
    to: int,
    sent: Seq<SerializedValue>,
    p: u32,
)
    requires
        0 <= from <= to <= sent.len(),
        forall|i: int|
            #![trigger sent[i]]
            from <= i < to ==> lies_at(bytes, pointer + 16 * i, sent[i]),
    ensures
        elements_owned(bytes, pointer, from, to).contains(p) <==> exists|i: int|
            from <= i < to && (#[trigger] sent[i]).tag == Tag::Str && second_word(sent[i]) != 0
                && first_word(sent[i]) == p,
{
    assert forall|i: int| #![trigger element_at(bytes, pointer, i)] from <= i
        < to implies element_at(bytes, pointer, i) == Some(sent[i]) by {
        law_value_is_read(bytes, pointer + 16 * i, sent[i]);
    }
    if elements_owned(bytes, pointer, from, to).contains(p) {
        let i = choose|i: int|
            #![trigger element_at(bytes, pointer, i)]
            from <= i < to && value_owned(element_at(bytes, pointer, i)->0).contains(p);
        law_block_of_value(sent[i], p);
        assert(sent[i].tag == Tag::Str);
    }
    if exists|i: int|
        from <= i < to && (#[trigger] sent[i]).tag == Tag::Str && second_word(sent[i]) != 0
            && first_word(sent[i]) == p {
        let i = choose|i: int|
            from <= i < to && (#[trigger] sent[i]).tag == Tag::Str && second_word(sent[i]) != 0
                && first_word(sent[i]) == p;
        law_block_of_value(sent[i], p);
        assert(value_owned(element_at(bytes, pointer, i)->0).contains(p));
    }
}

/// Taking an array over takes its own block and those of its strings, and leaves all others as they
/// are.
pub proof fn law_array_takes_its_blocks(
    bytes: Seq<u8>,
    blocks: Map<u32, u32>,
    array: SerializedUntaggedArray,
    sent: Seq<SerializedValue>,
    p: u32,
)
    requires
        sent.len() == array.length,
        forall|i: int|
            #![trigger sent[i]]
            0 <= i < sent.len() ==> lies_at(bytes, array.pointer + 16 * i, sent[i]),
    ensures
        array_taken(bytes, blocks, array).contains_key(p) <==> {
            &&& blocks.contains_key(p)
            &&& array.length == 0 || p != array.pointer
            &&& !(exists|i: int|
                0 <= i < sent.len() && (#[trigger] sent[i]).tag == Tag::Str && second_word(sent[i])
                    != 0 && first_word(sent[i]) == p)
        },
        array_taken(bytes, blocks, array).contains_key(p) ==> array_taken(
            bytes,
            blocks,
            array,
        )[p] == blocks[p],
{
    law_blocks_of_elements(bytes, array.pointer, 0, array.length as int, sent, p);
}

/// A text can be taken over if and only if it is empty, or encodes a text in a block of its own
/// with a byte to spare.
pub proof fn law_texts_that_can_arrive(
    bytes: Seq<u8>,
    blocks: Map<u32, u32>,
    string: SerializedUntaggedString,
)
    ensures
        string_ready(bytes, blocks, string) <==> string.length == 0 || (blocks.contains_key(
            string.pointer,
        ) && blocks[string.pointer] == string.length + 1 && valid_utf8(
            bytes.subrange(string.pointer as int, string.pointer + string.length),
        )),
{
}

/// Deserializing some elements of an array leaves the memory and the array as they are, takes the
/// blocks of those elements, and leaves all others.
pub proof fn law_advancing_takes_what_is_passed(
    before: &ArrayDeserializer,
    after: &ArrayDeserializer,
    p: u32,
)
    requires
        before.wf(),
        before.advances_to(after),
    ensures
        after.wf(),
        after.array() == before.array(),
        after.bytes() == before.bytes(),
        0 <= before.index() <= after.index() <= before.array().length,
        after.blocks().contains_key(p) <==> before.blocks().contains_key(p) && !elements_owned(
            before.bytes(),
            before.array().pointer,
            before.index(),
            after.index(),
        ).contains(p),
        after.blocks().contains_key(p) ==> after.blocks()[p] == before.blocks()[p],
{
    before.lemma_wf();
}

/// Deserializing some properties of an object leaves the memory and the object as they are, takes
/// the blocks of those properties, and leaves all others.
pub proof fn law_object_advancing_takes_what_is_passed(
    before: &ObjectDeserializer,
    after: &ObjectDeserializer,
    p: u32,
)
    requires
        before.wf(),
        before.advances_to(after),
    ensures
        after.wf(),
        after.object() == before.object(),
        after.bytes() == before.bytes(),
        0 <= before.index() <= after.index() <= before.object().length,
        after.blocks().contains_key(p) <==> before.blocks().contains_key(p) && !entries_owned(
            before.bytes(),
            before.object(),
            before.index(),
            after.index(),
        ).contains(p),
        after.blocks().contains_key(p) ==> after.blocks()[p] == before.blocks()[p],
{
    before.lemma_wf();
}

/// An object can be taken over if it has blocks of its own for its keys and for its values, and the
/// keys and values lie there, can be deserialized, and do not share their blocks.
pub proof fn law_objects_that_can_arrive(
    bytes: Seq<u8>,
    blocks: Map<u32, u32>,
    object: SerializedUntaggedObject,
    keys: Seq<SerializedUntaggedString>,
    sent: Seq<SerializedValue>,
)
    requires
        sent.len() == object.length,
        keys.len() == object.length,
        object.length != 0 ==> {
            &&& blocks.contains_key(object.key_pointer)
            &&& blocks[object.key_pointer] == 8 * object.length
            &&& blocks.contains_key(object.value_pointer)
            &&& blocks[object.value_pointer] == 16 * object.length
        },
        forall|i: int|
            #![trigger sent[i]]
            #![trigger keys[i]]
            0 <= i < sent.len() ==> {
                let owned = string_owned(keys[i]).union(value_owned(sent[i]));
                &&& number_at(bytes, object.key_pointer + 8 * i, 4) == keys[i].pointer
                &&& number_at(bytes, object.key_pointer + 8 * i + 4, 4) == keys[i].length
                &&& lies_at(bytes, object.value_pointer + 16 * i, sent[i])
                &&& string_ready(bytes, blocks, keys[i])
                &&& value_ready(bytes, blocks, sent[i])
                &&& string_owned(keys[i]).disjoint(value_owned(sent[i]))
                &&& !owned.contains(object.key_pointer)
                &&& !owned.contains(object.value_pointer)
            },
        forall|i: int, j: int|
            #![trigger sent[i], sent[j]]
            0 <= i < j < sent.len() ==> string_owned(keys[i]).union(
                value_owned(sent[i]),
            ).disjoint(string_owned(keys[j]).union(value_owned(sent[j]))),
    ensures
        object_ready(bytes, blocks, object),
{
    assert forall|i: int| 0 <= i < object.length implies {
        &&& #[trigger] object_key_at(bytes, object.key_pointer, i) == keys[i]
        &&& element_at(bytes, object.value_pointer, i) == Some(sent[i])
    } by {
        law_key_is_read(bytes, object.key_pointer + 8 * i);
        law_value_is_read(bytes, object.value_pointer + 16 * i, sent[i]);
    }
    assert forall|i: int| 0 <= i < object.length implies #[trigger] entry_ready(
        bytes,
        blocks,
        object,
        i,
    ) by {
        assert(object_key_at(bytes, object.key_pointer, i) == keys[i]);
    }
    assert forall|i: int, j: int|
        #![trigger entry_owned(bytes, object, i), entry_owned(bytes, object, j)]
        0 <= i < j < object.length implies entry_owned(bytes, object, i).disjoint(
        entry_owned(bytes, object, j),
    ) by {
        assert(object_key_at(bytes, object.key_pointer, i) == keys[i]);
        assert(object_key_at(bytes, object.key_pointer, j) == keys[j]);
        assert(sent[i] == sent[i] && sent[j] == sent[j]);
    }
}

/// The properties of an object come of the keys and of the serialized values that lie one after the
/// other from its two addresses on.
pub proof fn law_properties_arrive(
    bytes: Seq<u8>,
    blocks: Map<u32, u32>,
    object: SerializedUntaggedObject,
    i: int,
    sent: SerializedValue,
)
    requires
        object_ready(bytes, blocks, object),
        0 <= i < object.length,
        lies_at(bytes, object.value_pointer + 16 * i, sent),
    ensures
        object_js(bytes, object).len() == object.length,
        decodes_text(
            bytes,
            number_at(bytes, object.key_pointer + 8 * i, 4),
            number_at(bytes, object.key_pointer + 8 * i + 4, 4),
            object_js(bytes, object)[i].0,
        ),
        object_js(bytes, object)[i].1 == value_js(bytes, sent),
{
    law_value_is_read(bytes, object.value_pointer + 16 * i, sent);
    law_key_is_read(bytes, object.key_pointer + 8 * i);
    assert(entry_ready(bytes, blocks, object, i));
    law_text_arrives(bytes, blocks, object_key_at(bytes, object.key_pointer, i));
}

/// The blocks that go with some entries of an object are those of the texts of their keys, and
/// those of their values.
pub proof fn law_blocks_of_entries(
    bytes: Seq<u8>,
    object: SerializedUntaggedObject,
    from: int,
    to: int,
    sent: Seq<SerializedValue>,
    p: u32,
)
    requires
        0 <= from <= to <= sent.len(),
        forall|i: int|
            #![trigger sent[i]]
            from <= i < to ==> lies_at(bytes, object.value_pointer + 16 * i, sent[i]),
    ensures
        entries_owned(bytes, object, from, to).contains(p) <==> exists|i: int|
            #![trigger sent[i]]
            from <= i < to && {
                ||| number_at(bytes, object.key_pointer + 8 * i + 4, 4) != 0 && number_at(
                    bytes,
                    object.key_pointer + 8 * i,
                    4,
                ) == p
                ||| sent[i].tag == Tag::Str && second_word(sent[i]) != 0 && first_word(sent[i]) == p
            },
{
    assert forall|i: int| #![trigger sent[i]] from <= i < to implies (entry_owned(
        bytes,
        object,
        i,
    ).contains(p) <==> {
        ||| number_at(bytes, object.key_pointer + 8 * i + 4, 4) != 0 && number_at(
            bytes,
            object.key_pointer + 8 * i,
            4,
        ) == p
        ||| sent[i].tag == Tag::Str && second_word(sent[i]) != 0 && first_word(sent[i]) == p
    }) by {
        law_value_is_read(bytes, object.value_pointer + 16 * i, sent[i]);
        law_key_is_read(bytes, object.key_pointer + 8 * i);
        law_block_of_value(sent[i], p);
    }
    if entries_owned(bytes, object, from, to).contains(p) {
        let i = choose|i: int|
            from <= i < to && #[trigger] entry_owned(bytes, object, i).contains(p);
        assert(lies_at(bytes, object.value_pointer + 16 * i, sent[i]));
    }
}

/// The arguments of a call come of the array whose address and length stand at the given address.
pub proof fn law_arguments_arrive(
    bytes: Seq<u8>,
    raw_arguments: u32,
    i: int,
    sent: SerializedValue,
)
    requires
        0 <= i < number_at(bytes, raw_arguments + 4, 4),
        lies_at(bytes, number_at(bytes, raw_arguments as int, 4) + 16 * i, sent),
    ensures
        arguments_js(bytes, raw_arguments)[i] == value_js(bytes, sent),
{
    law_number_is_read(bytes, raw_arguments as int);
    law_number_is_read(bytes, raw_arguments + 4);
    law_elements_arrive(bytes, arguments_at(bytes, raw_arguments), i, sent);
}

/// A call has as many arguments as the number that stands after the address of their array says,
/// and takes the block in which the two stand, besides those of the array.
pub proof fn law_call_takes_its_blocks(
    bytes: Seq<u8>,
    blocks: Map<u32, u32>,
    raw_arguments: u32,
    array: SerializedUntaggedArray,
    p: u32,
)
    requires
        array.pointer == number_at(bytes, raw_arguments as int, 4),
        array.length == number_at(bytes, raw_arguments + 4, 4),
    ensures
        arguments_js(bytes, raw_arguments).len() == array.length,
        arguments_taken(bytes, blocks, raw_arguments).contains_key(p) <==> p != raw_arguments
            && array_taken(bytes, blocks, array).contains_key(p),
        arguments_taken(bytes, blocks, raw_arguments).contains_key(p) ==> arguments_taken(
            bytes,
            blocks,
            raw_arguments,
        )[p] == array_taken(bytes, blocks, array)[p],
{
    law_number_is_read(bytes, raw_arguments as int);
    law_number_is_read(bytes, raw_arguments + 4);
    assert(arguments_at(bytes, raw_arguments) == array);
}

/// Arguments can be taken over if their array can, and stands in a block of its own, which has the
/// size of a serialized value and is none of those of the array.
pub proof fn law_calls_that_can_arrive(
    bytes: Seq<u8>,
    blocks: Map<u32, u32>,
    raw_arguments: u32,
    array: SerializedUntaggedArray,
)
    requires
        array.pointer == number_at(bytes, raw_arguments as int, 4),
        array.length == number_at(bytes, raw_arguments + 4, 4),
        array_ready(bytes, blocks, array),
        blocks.contains_key(raw_arguments),
        blocks[raw_arguments] == 16,
        array_taken(bytes, blocks, array).contains_key(raw_arguments),
    ensures
        arguments_ready(bytes, blocks, raw_arguments),
{
    law_number_is_read(bytes, raw_arguments as int);
    law_number_is_read(bytes, raw_arguments + 4);
    assert(arguments_at(bytes, raw_arguments) == array);
}

/// A parameter of type `bool` gets the boolean that JavaScript has sent, and nothing else is
/// convertible to it.
pub proof fn law_bool_argument_arrives(bytes: Seq<u8>, sent: SerializedValue, x: bool)
    ensures
        bool::converts(value_js(bytes, sent), x) <==> sent.tag == (if x {
            Tag::True
        } else {
            Tag::False
        }),
        bool::convertible(value_js(bytes, sent)) <==> sent.tag == Tag::True || sent.tag
            == Tag::False,
{
}

/// A parameter that is a number gets the number that JavaScript has sent, in the form in which it
/// was sent, and nothing else is convertible to it.
pub proof fn law_number_argument_arrives(bytes: Seq<u8>, sent: SerializedValue, x: Number)
    ensures
        Number::converts(value_js(bytes, sent), x) ==> match x {
            Number::I32(n) => sent.tag == Tag::I32 && n as int % 0x1_0000_0000 == first_word(sent),
            Number::F64(double) => sent.tag == Tag::F64 && double.bits == sent.data_1,
        },
        Number::convertible(value_js(bytes, sent)) <==> sent.tag == Tag::I32 || sent.tag
            == Tag::F64,
{
    law_i32_data(SerializedUntaggedI32 { value: 0 }, sent);
    law_f64_data(SerializedUntaggedF64 { value: Float64 { bits: 0 } }, sent);
}

/// A parameter that is a symbol gets the symbol that JavaScript has sent, and nothing else is
/// convertible to it.
pub proof fn law_symbol_argument_arrives(bytes: Seq<u8>, sent: SerializedValue, x: Symbol)
    ensures
        Symbol::converts(value_js(bytes, sent), x) ==> sent.tag == Tag::Symbol && x.0 as int
            % 0x1_0000_0000 == first_word(sent),
        Symbol::convertible(value_js(bytes, sent)) <==> sent.tag == Tag::Symbol,
{
    law_symbol_data(SerializedUntaggedSymbol { id: 0 }, sent);
}

/// A parameter that is a reference gets the reference that JavaScript has sent, and nothing else is
/// convertible to it.
pub proof fn law_reference_argument_arrives(bytes: Seq<u8>, sent: SerializedValue, x: Reference)
    ensures
        Reference::converts(value_js(bytes, sent), x) ==> sent.tag == Tag::Reference
            && x.refid as int % 0x1_0000_0000 == first_word(sent),
        Reference::convertible(value_js(bytes, sent)) <==> sent.tag == Tag::Reference,
{
    law_reference_data(SerializedUntaggedReference { refid: 0 }, sent);
}

/// A parameter that is a string gets the text that JavaScript has sent, and nothing else is
/// convertible to it.
pub proof fn law_string_argument_arrives(
    bytes: Seq<u8>,
    blocks: Map<u32, u32>,
    sent: SerializedValue,
    x: String,
)
    requires
        value_ready(bytes, blocks, sent),
    ensures
        String::converts(value_js(bytes, sent), x) ==> sent.tag == Tag::Str && decodes_text(
            bytes,
            first_word(sent),
            second_word(sent),
            x@,
        ),
        String::convertible(value_js(bytes, sent)) <==> sent.tag == Tag::Str,
{
    if sent.tag == Tag::Str {
        law_string_data(SerializedUntaggedString { pointer: 0, length: 0 }, sent);
        law_text_arrives(bytes, blocks, SerializedUntaggedString::untagged(sent));
    }
}

/// A parameter that is any value gets the value that JavaScript has sent, and all are convertible
/// to it.
pub proof fn law_value_argument_arrives(
    bytes: Seq<u8>,
    blocks: Map<u32, u32>,
    sent: SerializedValue,
    x: Value,
)
    requires
        value_ready(bytes, blocks, sent),
    ensures
        Value::converts(value_js(bytes, sent), x) ==> arrives(bytes, sent, x),
        Value::convertible(value_js(bytes, sent)),
{
    if Value::converts(value_js(bytes, sent), x) {
        law_value_arrives(bytes, blocks, sent, x);
    }
}

/// Converting is the inverse of serializing: what is serialized as a JavaScript value, and nothing
/// else, comes of it.
pub proof fn law_converting_undoes_serializing(
    js: JsValue,
    boolean: bool,
    number: Number,
    symbol: Symbol,
    string: String,
    reference: Reference,
    value: Value,
)
    ensures
        bool::converts(js, boolean) <==> js == boolean.js(),
        Number::converts(js, number) <==> js == number.js(),
        Symbol::converts(js, symbol) <==> js == symbol.js(),
        String::converts(js, string) <==> js == string.js(),
        Reference::converts(js, reference) <==> js == reference.js(),
        Value::converts(js, value) <==> js == value.js(),
        bool::convertible(boolean.js()),
        Number::convertible(number.js()),
        Symbol::convertible(symbol.js()),
        String::convertible(string.js()),
        Reference::convertible(reference.js()),
        Value::convertible(value.js()),
{
}

/// A conversion is definite: at most one boolean, number, symbol, text or reference comes of a
/// JavaScript value.
pub proof fn law_conversions_are_faithful(
    js: JsValue,
    booleans: (bool, bool),
    numbers: (Number, Number),
    symbols: (Symbol, Symbol),
    strings: (String, String),
    references: (Reference, Reference),
)
    ensures
        bool::converts(js, booleans.0) && bool::converts(js, booleans.1) ==> booleans.0
            == booleans.1,
        Number::converts(js, numbers.0) && Number::converts(js, numbers.1) ==> numbers.0
            == numbers.1,
        Symbol::converts(js, symbols.0) && Symbol::converts(js, symbols.1) ==> symbols.0
            == symbols.1,
        String::converts(js, strings.0) && String::converts(js, strings.1) ==> strings.0@
            == strings.1@,
        Reference::converts(js, references.0) && Reference::converts(js, references.1)
            ==> references.0 == references.1,
{
}

/// The arguments of a callback keep their places: each comes of the value that was sent in its
/// place, and is convertible as its own type says.
pub proof fn law_arguments_keep_their_places<T: FromValue, U: FromValue, Rest: Arguments>(
    values: Seq<JsValue>,
    arguments: (T, (U, Rest)),
    i: int,
    js: JsValue,
)
    ensures
        <(T, (U, Rest))>::arity() == 2 + Rest::arity(),
        <(T, (U, Rest))>::converts_all(values, arguments) <==> {
            &&& values.len() >= 2
            &&& T::converts(values[0], arguments.0)
            &&& U::converts(values[1], arguments.1.0)
            &&& Rest::converts_all(values.skip(2), arguments.1.1)
        },
        <(T, (U, Rest))>::accepts(0, js) == T::convertible(js),
        <(T, (U, Rest))>::accepts(1, js) == U::convertible(js),
        i >= 0 ==> <(T, (U, Rest))>::accepts(i + 2, js) == Rest::accepts(i, js),
{
    if values.len() >= 2 {
        assert(values.drop_first().drop_first() =~= values.skip(2));
        assert(values.drop_first()[0] == values[1]);
    }
}

/// A callback with one parameter gets one argument, and one without parameters gets none.
pub proof fn law_few_arguments<T: FromValue>(
    values: Seq<JsValue>,
    argument: (T, ()),
    js: JsValue,
)
    ensures
        <(T, ())>::arity() == 1,
        <(T, ())>::converts_all(values, argument) <==> values.len() == 1 && T::converts(
            values[0],
            argument.0,
        ),
        <(T, ())>::accepts(0, js) == T::convertible(js),
        <()>::arity() == 0,
        <()>::converts_all(values, ()) <==> values.len() == 0,
{
}

/// A call fails if and only if the number of its arguments is not the expected one, which the error
/// tells with the number that there is, or one of them is not accepted, of which the error tells
/// the first.
pub proof fn law_calls_that_fail<A: Arguments>(
    values: Seq<JsValue>,
    arguments: A,
    expected: usize,
    got: usize,
    argument: usize,
)
    requires
        A::arity() <= usize::MAX,
        values.len() <= usize::MAX,
    ensures
        decodes::<A>(values, Err(CallError::ArgumentCount { expected, got })) <==> values.len()
            != A::arity() && expected == A::arity() && got == values.len(),
        decodes::<A>(values, Err(CallError::NotConvertible { argument })) <==> {
            &&& values.len() == A::arity()
            &&& 1 <= argument <= values.len()
            &&& !A::accepts(argument - 1, values[argument - 1])
            &&& forall|i: int| 0 <= i < argument - 1 ==> A::accepts(i, #[trigger] values[i])
        },
        decodes::<A>(values, Ok(arguments)) <==> {
            &&& values.len() == A::arity()
            &&& A::converts_all(values, arguments)
            &&& forall|i: int| 0 <= i < values.len() ==> A::accepts(i, #[trigger] values[i])
        },
{
}

} // verus!
