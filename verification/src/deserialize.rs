//! Values that JavaScript hands to Rust.
//!
//! JavaScript allocates what its values reach, and hands the blocks over with them: whoever
//! deserializes a value takes its blocks.

use vstd::prelude::*;
use vstd::utf8::{decode_utf8, encode_utf8, valid_utf8};

use crate::meaning::{element_at, js_at, text_at};
use crate::memory::{string_from_utf8, LinearMemory};
use crate::serialize::{items_js, JsSerialize};
use crate::serialized::{
    SerializedUntaggedArray, SerializedUntaggedF64, SerializedUntaggedI32,
    SerializedUntaggedReference, SerializedUntaggedString, SerializedUntaggedSymbol,
    SerializedValue, Untagged,
};
use crate::tag::Tag;
use crate::value::{JsValue, Number, Reference, Symbol, Value};

verus! {

/// The text of a string.
pub open spec fn string_text(bytes: Seq<u8>, string: SerializedUntaggedString) -> Seq<char> {
    if string.length == 0 {
        Seq::empty()
    } else {
        decode_utf8(bytes.subrange(string.pointer as int, string.pointer + string.length))
    }
}

/// Whether a string can be taken over: it is empty, or it is UTF-8 and has a block of its own,
/// with room for one byte more than its own.
pub open spec fn string_ready(
    bytes: Seq<u8>,
    blocks: Map<u32, u32>,
    string: SerializedUntaggedString,
) -> bool {
    string.length != 0 ==> {
        &&& blocks.contains_key(string.pointer)
        &&& blocks[string.pointer] == string.length + 1
        &&& valid_utf8(bytes.subrange(string.pointer as int, string.pointer + string.length))
    }
}

/// The addresses of the blocks that go with a string.
pub open spec fn string_owned(string: SerializedUntaggedString) -> Set<u32> {
    if string.length == 0 {
        Set::empty()
    } else {
        Set::empty().insert(string.pointer)
    }
}

/// The JavaScript value that a serialized value stands for, if it is neither an array nor an
/// object nor a function.
pub open spec fn value_js(bytes: Seq<u8>, value: SerializedValue) -> JsValue {
    match value.tag {
        Tag::Null => JsValue::Null,
        Tag::I32 => JsValue::I32(SerializedUntaggedI32::untagged(value).value),
        Tag::F64 => JsValue::F64(SerializedUntaggedF64::untagged(value).value.bits),
        Tag::Str => JsValue::Str(string_text(bytes, SerializedUntaggedString::untagged(value))),
        Tag::False => JsValue::Bool(false),
        Tag::True => JsValue::Bool(true),
        Tag::Reference => JsValue::Reference(SerializedUntaggedReference::untagged(value).refid),
        Tag::Symbol => JsValue::Symbol(SerializedUntaggedSymbol::untagged(value).id),
        _ => JsValue::Undefined,
    }
}

/// Whether a value can be deserialized.
pub open spec fn value_ready(
    bytes: Seq<u8>,
    blocks: Map<u32, u32>,
    value: SerializedValue,
) -> bool {
    match value.tag {
        Tag::Str => string_ready(bytes, blocks, SerializedUntaggedString::untagged(value)),
        Tag::Function => false,
        Tag::FunctionOnce => false,
        Tag::Object => false,
        Tag::Array => false,
        Tag::UnsafeTypedArray => false,
        _ => true,
    }
}

/// The addresses of the blocks that go with a value.
pub open spec fn value_owned(value: SerializedValue) -> Set<u32> {
    if value.tag == Tag::Str {
        string_owned(SerializedUntaggedString::untagged(value))
    } else {
        Set::empty()
    }
}

/// Whether a JavaScript value crosses the boundary without pointing at other values.
pub open spec fn is_plain(js: JsValue) -> bool {
    match js {
        JsValue::Array(_) => false,
        JsValue::Object(_) => false,
        JsValue::TypedArray(_, _) => false,
        JsValue::Function(_, _, _) => false,
        JsValue::FunctionOnce(_, _, _) => false,
        _ => true,
    }
}

/// The text of a string is what it stands for.
pub proof fn law_text_is_read(
    bytes: Seq<u8>,
    region: Set<int>,
    string: SerializedUntaggedString,
    text: Seq<char>,
)
    requires
        text_at(bytes, region, string, text),
    ensures
        string_text(bytes, string) == text,
        valid_utf8(bytes.subrange(string.pointer as int, string.pointer + string.length)),
{
    vstd::utf8::encode_utf8_decode_utf8(text);
    vstd::utf8::encode_utf8_valid_utf8(text);
    let part = bytes.subrange(string.pointer as int, string.pointer + string.length);
    assert forall|i: int| 0 <= i < part.len() implies #[trigger] part[i]
        == encode_utf8(text)[i] by {
        assert(bytes[string.pointer + i] == encode_utf8(text)[i]);
    }
    assert(part =~= encode_utf8(text));
    if string.length == 0 {
        assert(encode_utf8(text) =~= Seq::<u8>::empty());
        assert(decode_utf8(Seq::<u8>::empty()) =~= Seq::<char>::empty());
    }
}

/// Deserializing a value gives the JavaScript value that it stands for.
pub proof fn law_deserialize_reads_meaning(
    bytes: Seq<u8>,
    region: Set<int>,
    value: SerializedValue,
    js: JsValue,
)
    requires
        js_at(bytes, region, value, js),
        is_plain(js),
    ensures
        value_js(bytes, value) == js,
{
    if let JsValue::Str(text) = js {
        law_text_is_read(bytes, region, SerializedUntaggedString::untagged(value), text);
    }
}

/// A value that is serialized and deserialized again is the same as before.
pub proof fn law_value_survives(
    initial: Value,
    bytes: Seq<u8>,
    region: Set<int>,
    serialized: SerializedValue,
)
    requires
        js_at(bytes, region, serialized, initial.js()),
    ensures
        value_js(bytes, serialized) == initial@,
{
    law_deserialize_reads_meaning(bytes, region, serialized, initial@);
}

/// Deserializing an array gives the elements that it stands for, in order.
pub proof fn law_array_reads_meaning(
    bytes: Seq<u8>,
    region: Set<int>,
    value: SerializedValue,
    items: Seq<JsValue>,
)
    requires
        js_at(bytes, region, value, JsValue::Array(items)),
        forall|i: int| 0 <= i < items.len() ==> is_plain(#[trigger] items[i]),
    ensures
        array_js(bytes, SerializedUntaggedArray::untagged(value)) == items,
{
    let array = SerializedUntaggedArray::untagged(value);
    assert forall|i: int| 0 <= i < items.len() implies #[trigger] array_js(bytes, array)[i]
        == items[i] by {
        law_deserialize_reads_meaning(
            bytes,
            region,
            element_at(bytes, array.pointer, i)->0,
            items[i],
        );
    }
    assert(array_js(bytes, array) =~= items);
}

/// The elements of a vector that is serialized and deserialized again are the same as before.
pub proof fn law_vector_survives(
    initial: Vec<Value>,
    bytes: Seq<u8>,
    region: Set<int>,
    serialized: SerializedValue,
)
    requires
        js_at(bytes, region, serialized, initial.js()),
    ensures
        array_js(bytes, SerializedUntaggedArray::untagged(serialized)).len() == initial@.len(),
        forall|i: int|
            0 <= i < initial@.len() ==> #[trigger] array_js(
                bytes,
                SerializedUntaggedArray::untagged(serialized),
            )[i] == initial@[i]@,
{
    law_array_reads_meaning(bytes, region, serialized, items_js(initial@));
}

impl SerializedUntaggedString {
    /// Takes the string over.
    pub fn deserialize(&self, memory: &mut LinearMemory) -> (string: String)
        requires
            old(memory).wf(),
            string_ready(old(memory).bytes(), old(memory).blocks(), *self),
        ensures
            string@ == string_text(old(memory).bytes(), *self),
            final(memory).wf(),
            final(memory).bytes() == old(memory).bytes(),
            final(memory).blocks() == old(memory).blocks().remove_keys(string_owned(*self)),
    {
        if self.length == 0 {
            assert(memory.blocks() =~= old(memory).blocks().remove_keys(string_owned(*self)));
            return String::new();
        }
        assert(memory.blocks().contains_key(self.pointer));
        let bytes = memory.read(self.pointer, self.length);
        memory.deallocate(self.pointer, self.length as usize + 1);
        assert(memory.blocks() =~= old(memory).blocks().remove_keys(string_owned(*self)));
        match string_from_utf8(bytes) {
            Some(string) => string,
            None => String::new(),
        }
    }
}

impl SerializedUntaggedSymbol {
    /// The symbol.
    pub fn deserialize(&self) -> (symbol: Symbol)
        ensures
            symbol.0 == self.id,
    {
        Symbol(self.id)
    }
}

impl SerializedUntaggedReference {
    /// The reference.
    pub fn deserialize(&self) -> (reference: Reference)
        ensures
            reference.refid == self.refid,
    {
        Reference::from_raw_unchecked_noref(self.refid)
    }
}

impl SerializedValue {
    /// Deserializes the value, and takes its blocks.
    pub fn deserialize(&self, memory: &mut LinearMemory) -> (value: Value)
        requires
            old(memory).wf(),
            value_ready(old(memory).bytes(), old(memory).blocks(), *self),
        ensures
            value@ == value_js(old(memory).bytes(), *self),
            final(memory).wf(),
            final(memory).bytes() == old(memory).bytes(),
            final(memory).blocks() == old(memory).blocks().remove_keys(value_owned(*self)),
    {
        assert(self.tag != Tag::Str ==> memory.blocks() =~= old(memory).blocks().remove_keys(
            value_owned(*self),
        ));
        match self.tag {
            Tag::Undefined => Value::Undefined,
            Tag::Null => Value::Null,
            Tag::I32 => Value::Number(Number::I32(self.as_i32().value)),
            Tag::F64 => Value::Number(Number::F64(self.as_f64().value)),
            Tag::Str => Value::String(self.as_string().deserialize(memory)),
            Tag::False => Value::Bool(false),
            Tag::True => Value::Bool(true),
            Tag::Reference => Value::Reference(self.as_reference().deserialize()),
            Tag::Symbol => Value::Symbol(self.as_symbol().deserialize()),
            Tag::Function | Tag::FunctionOnce | Tag::Object | Tag::Array
            | Tag::UnsafeTypedArray => {
                assert(false);
                Value::Undefined
            },
        }
    }
}

/// The blocks that go with the elements of an array from index `from` up to index `to`.
pub open spec fn elements_owned(bytes: Seq<u8>, pointer: u32, from: int, to: int) -> Set<u32> {
    Set::new(
        |p: u32|
            exists|i: int|
                #![trigger element_at(bytes, pointer, i)]
                from <= i < to && value_owned(element_at(bytes, pointer, i)->0).contains(p),
    )
}

/// Whether the elements of an array from index `from` up to index `to` can be deserialized. No
/// two of them share a block, and none has that of the array.
pub open spec fn elements_ready(
    bytes: Seq<u8>,
    blocks: Map<u32, u32>,
    pointer: u32,
    from: int,
    to: int,
) -> bool {
    &&& forall|i: int|
        #![trigger element_at(bytes, pointer, i)]
        from <= i < to ==> {
            &&& element_at(bytes, pointer, i) is Some
            &&& value_ready(bytes, blocks, element_at(bytes, pointer, i)->0)
            &&& !value_owned(element_at(bytes, pointer, i)->0).contains(pointer)
        }
    &&& forall|i: int, j: int|
        #![trigger element_at(bytes, pointer, i), element_at(bytes, pointer, j)]
        from <= i < j < to ==> value_owned(element_at(bytes, pointer, i)->0).disjoint(
            value_owned(element_at(bytes, pointer, j)->0),
        )
}

/// Whether an array can be taken over.
pub open spec fn array_ready(
    bytes: Seq<u8>,
    blocks: Map<u32, u32>,
    array: SerializedUntaggedArray,
) -> bool {
    &&& array.length != 0 ==> blocks.contains_key(array.pointer) && blocks[array.pointer] == 16
        * array.length
    &&& elements_ready(bytes, blocks, array.pointer, 0, array.length as int)
}

/// The elements of an array.
pub open spec fn array_js(bytes: Seq<u8>, array: SerializedUntaggedArray) -> Seq<JsValue> {
    Seq::new(
        array.length as nat,
        |i: int| value_js(bytes, element_at(bytes, array.pointer, i)->0),
    )
}

/// The blocks that stay when an array is taken over.
pub open spec fn array_taken(
    bytes: Seq<u8>,
    blocks: Map<u32, u32>,
    array: SerializedUntaggedArray,
) -> Map<u32, u32> {
    let rest = blocks.remove_keys(
        elements_owned(bytes, array.pointer, 0, array.length as int),
    );
    if array.length == 0 {
        rest
    } else {
        rest.remove(array.pointer)
    }
}

/// The elements of an array, deserialized one after the other.
#[derive(Debug)]
pub struct ArrayDeserializer {
    memory: LinearMemory,
    array: SerializedUntaggedArray,
    index: u32,
}

impl ArrayDeserializer {
    /// The contents of the memory.
    pub closed spec fn bytes(&self) -> Seq<u8> {
        self.memory.bytes()
    }

    /// The allocated blocks of the memory.
    pub closed spec fn blocks(&self) -> Map<u32, u32> {
        self.memory.blocks()
    }

    /// The array.
    pub closed spec fn array(&self) -> SerializedUntaggedArray {
        self.array
    }

    /// The index of the element that comes next.
    pub closed spec fn index(&self) -> int {
        self.index as int
    }

    /// Whether the elements that are left can be deserialized.
    pub closed spec fn wf(&self) -> bool {
        &&& self.memory.wf()
        &&& self.index <= self.array.length
        &&& self.array.length != 0 ==> self.blocks().contains_key(self.array.pointer)
            && self.blocks()[self.array.pointer] == 16 * self.array.length
        &&& elements_ready(
            self.bytes(),
            self.blocks(),
            self.array.pointer,
            self.index(),
            self.array.length as int,
        )
    }

    /// What is known of every deserializer that is well formed.
    pub proof fn lemma_wf(&self)
        requires
            self.wf(),
        ensures
            0 <= self.index() <= self.array().length,
            self.array().length != 0 ==> self.blocks().contains_key(self.array().pointer)
                && self.blocks()[self.array().pointer] == 16 * self.array().length,
            elements_ready(
                self.bytes(),
                self.blocks(),
                self.array().pointer,
                self.index(),
                self.array().length as int,
            ),
    {
    }

    /// Whether `after` is what calls of [`ArrayDeserializer::next`] can make of `self`.
    pub open spec fn advances_to(&self, after: &ArrayDeserializer) -> bool {
        &&& after.wf()
        &&& after.array() == self.array()
        &&& after.bytes() == self.bytes()
        &&& self.index() <= after.index() <= self.array().length
        &&& after.blocks() == self.blocks().remove_keys(
            elements_owned(self.bytes(), self.array().pointer, self.index(), after.index()),
        )
    }

    fn new(memory: LinearMemory, array: SerializedUntaggedArray) -> (deserializer: Self)
        requires
            memory.wf(),
            array_ready(memory.bytes(), memory.blocks(), array),
        ensures
            deserializer.wf(),
            deserializer.bytes() == memory.bytes(),
            deserializer.blocks() == memory.blocks(),
            deserializer.array() == array,
            deserializer.index() == 0,
    {
        ArrayDeserializer { memory, array, index: 0 }
    }

    /// Deserializes the next element, if one is left.
    pub fn next(&mut self) -> (value: Option<Value>)
        requires
            old(self).wf(),
        ensures
            old(self).advances_to(final(self)),
            match value {
                Some(value) => {
                    &&& 0 <= old(self).index() < old(self).array().length
                    &&& final(self).index() == old(self).index() + 1
                    &&& value@ == array_js(old(self).bytes(), old(self).array())[old(self).index()]
                },
                None => {
                    &&& old(self).index() == old(self).array().length
                    &&& final(self).index() == old(self).index()
                },
            },
    {
        let ghost bytes = self.bytes();
        let ghost pointer = self.array.pointer;
        let ghost first = self.index as int;
        if self.index >= self.array.length {
            assert(self.blocks() =~= old(self).blocks().remove_keys(
                elements_owned(bytes, pointer, first, first),
            ));
            None
        } else {
            assert(element_at(bytes, pointer, first) is Some);
            assert(self.memory.blocks().contains_key(pointer));
            match self.memory.read_value(self.array.pointer + 16 * self.index) {
                Some(element) => {
                    let value = element.deserialize(&mut self.memory);
                    self.index = self.index + 1;
                    proof {
                        assert(element == element_at(bytes, pointer, first)->0);
                        assert(elements_owned(bytes, pointer, first, first + 1)
                            =~= value_owned(element));
                        assert forall|i: int|
                            #![trigger element_at(bytes, pointer, i)]
                            first < i < self.array.length implies value_ready(
                            bytes,
                            self.blocks(),
                            element_at(bytes, pointer, i)->0,
                        ) by {
                            let other = element_at(bytes, pointer, i)->0;
                            assert(value_owned(element).disjoint(value_owned(other)));
                            if other.tag == Tag::Str {
                                let string = SerializedUntaggedString::untagged(other);
                                if string.length != 0 {
                                    assert(value_owned(other).contains(string.pointer));
                                }
                            }
                        }
                    }
                    Some(value)
                },
                None => None,
            }
        }
    }

    /// How many elements are left: at least, and at most.
    pub fn size_hint(&self) -> (hint: (usize, Option<usize>))
        requires
            self.wf(),
        ensures
            hint.0 == self.array().length - self.index(),
            hint.1 == Some(hint.0),
    {
        let remaining = (self.array.length - self.index) as usize;
        (remaining, Some(remaining))
    }

    /// Gives the block of the array back, and returns the memory.
    fn finish(self) -> (memory: LinearMemory)
        requires
            self.wf(),
        ensures
            memory.wf(),
            memory.bytes() == self.bytes(),
            memory.blocks() == if self.array().length == 0 {
                self.blocks()
            } else {
                self.blocks().remove(self.array().pointer)
            },
    {
        let mut memory = self.memory;
        memory.deallocate(self.array.pointer, self.array.length as usize * 16);
        memory
    }
}

impl SerializedUntaggedArray {
    /// Deserializes all elements, and takes the blocks of the array.
    pub fn deserialize(&self, memory: &mut LinearMemory) -> (values: Vec<Value>)
        requires
            old(memory).wf(),
            array_ready(old(memory).bytes(), old(memory).blocks(), *self),
        ensures
            values@.len() == self.length,
            forall|i: int|
                0 <= i < values@.len() ==> #[trigger] values@[i]@ == array_js(
                    old(memory).bytes(),
                    *self,
                )[i],
            final(memory).wf(),
            final(memory).bytes() == old(memory).bytes(),
            final(memory).blocks() == array_taken(
                old(memory).bytes(),
                old(memory).blocks(),
                *self,
            ),
    {
        let ghost bytes = memory.bytes();
        let ghost blocks = memory.blocks();
        let mut taken = LinearMemory::new();
        std::mem::swap(memory, &mut taken);
        let mut deserializer = ArrayDeserializer::new(taken, *self);
        let ghost start = deserializer;
        let mut values: Vec<Value> = Vec::new();
        assert(blocks =~= blocks.remove_keys(elements_owned(bytes, self.pointer, 0, 0)));
        loop
            invariant
                start.index() == 0,
                start.array() == *self,
                start.bytes() == bytes,
                start.blocks() == blocks,
                start.advances_to(&deserializer),
                values@.len() == deserializer.index(),
                forall|i: int|
                    0 <= i < values@.len() ==> #[trigger] values@[i]@ == array_js(bytes, *self)[i],
            ensures
                deserializer.index() == self.length,
            decreases self.length - deserializer.index(),
        {
            let ghost before = deserializer;
            let next = deserializer.next();
            proof {
                law_array_advances_compose(&start, &before, &deserializer);
            }
            match next {
                Some(value) => {
                    values.push(value);
                },
                None => {
                    break;
                },
            }
        }
        *memory = deserializer.finish();
        values
    }
}

/// What two runs of calls of [`ArrayDeserializer::next`] make of an array, one run makes of it.
pub proof fn law_array_advances_compose(
    first: &ArrayDeserializer,
    second: &ArrayDeserializer,
    third: &ArrayDeserializer,
)
    requires
        first.advances_to(second),
        second.advances_to(third),
    ensures
        first.advances_to(third),
{
    let bytes = first.bytes();
    let pointer = first.array().pointer;
    assert(elements_owned(bytes, pointer, first.index(), third.index()) =~= elements_owned(
        bytes,
        pointer,
        first.index(),
        second.index(),
    ).union(elements_owned(bytes, pointer, second.index(), third.index())));
    assert(third.blocks() =~= first.blocks().remove_keys(
        elements_owned(bytes, pointer, first.index(), third.index()),
    ));
}

/// Takes over the array that JavaScript has serialized as `result`: the callback deserializes as
/// many of its elements as it likes.
pub fn deserialize_array<R, F: FnOnce(&mut ArrayDeserializer) -> R>(
    memory: &mut LinearMemory,
    result: &SerializedValue,
    callback: F,
) -> (output: R)
    requires
        old(memory).wf(),
        result.tag == Tag::Array,
        array_ready(
            old(memory).bytes(),
            old(memory).blocks(),
            SerializedUntaggedArray::untagged(*result),
        ),
        forall|deserializer: &mut ArrayDeserializer|
            (*deserializer).wf() && (*deserializer).index() == 0 && (*deserializer).array()
                == SerializedUntaggedArray::untagged(*result) && (*deserializer).bytes() == old(
                memory,
            ).bytes() && (*deserializer).blocks() == old(memory).blocks()
                ==> #[trigger] call_requires(callback, (deserializer,)),
        forall|deserializer: &mut ArrayDeserializer, output: R| #[trigger]
            call_ensures(callback, (deserializer,), output) && (*deserializer).wf()
                ==> (*deserializer).advances_to(final(deserializer)),
    ensures
        final(memory).wf(),
        exists|deserializer: &mut ArrayDeserializer|
            {
                &&& #[trigger] call_ensures(callback, (deserializer,), output)
                &&& (*deserializer).wf()
                &&& (*deserializer).index() == 0
                &&& (*deserializer).array() == SerializedUntaggedArray::untagged(*result)
                &&& (*deserializer).bytes() == old(memory).bytes()
                &&& (*deserializer).blocks() == old(memory).blocks()
                &&& final(memory).bytes() == (*final(deserializer)).bytes()
                &&& final(memory).blocks() == if (*deserializer).array().length == 0 {
                    (*final(deserializer)).blocks()
                } else {
                    (*final(deserializer)).blocks().remove((*deserializer).array().pointer)
                }
            },
{
    let array = result.as_array();
    let mut taken = LinearMemory::new();
    std::mem::swap(memory, &mut taken);
    let mut deserializer = ArrayDeserializer::new(taken, array);
    let ghost start = deserializer;
    let output = callback(&mut deserializer);
    assert(exists|d: &mut ArrayDeserializer| #[trigger]
        call_ensures(callback, (d,), output) && *d == start && *final(d) == deserializer);
    *memory = deserializer.finish();
    output
}

} // verus!
