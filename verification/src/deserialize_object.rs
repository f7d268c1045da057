//! Objects that JavaScript hands to Rust.

use vstd::prelude::*;

use crate::deserialize::{
    is_plain, law_deserialize_reads_meaning, law_text_is_read, string_owned, string_ready,
    string_text, value_js, value_owned, value_ready,
};
use crate::key::ObjectKey;
use crate::meaning::{element_at, js_at, object_key_at};
use crate::memory::LinearMemory;
use crate::object::entries_js;
use crate::serialized::{
    SerializedUntaggedObject, SerializedUntaggedString, SerializedValue, Untagged,
};
use crate::tag::Tag;
use crate::value::{JsValue, Value};

verus! {

/// The blocks that go with an entry of an object.
pub open spec fn entry_owned(
    bytes: Seq<u8>,
    object: SerializedUntaggedObject,
    i: int,
) -> Set<u32> {
    string_owned(object_key_at(bytes, object.key_pointer, i)).union(
        value_owned(element_at(bytes, object.value_pointer, i)->0),
    )
}

/// The blocks that go with the entries of an object from index `from` up to index `to`.
pub open spec fn entries_owned(
    bytes: Seq<u8>,
    object: SerializedUntaggedObject,
    from: int,
    to: int,
) -> Set<u32> {
    Set::new(
        |p: u32|
            exists|i: int| from <= i < to && #[trigger] entry_owned(bytes, object, i).contains(p),
    )
}

/// Whether an entry of an object can be deserialized. Its key and its value do not share a block,
/// and neither has a block of the object.
pub open spec fn entry_ready(
    bytes: Seq<u8>,
    blocks: Map<u32, u32>,
    object: SerializedUntaggedObject,
    i: int,
) -> bool {
    let key = object_key_at(bytes, object.key_pointer, i);
    let value = element_at(bytes, object.value_pointer, i);
    &&& string_ready(bytes, blocks, key)
    &&& value is Some
    &&& value_ready(bytes, blocks, value->0)
    &&& string_owned(key).disjoint(value_owned(value->0))
    &&& !entry_owned(bytes, object, i).contains(object.key_pointer)
    &&& !entry_owned(bytes, object, i).contains(object.value_pointer)
}

/// Whether the entries of an object from index `from` up to index `to` can be deserialized. No
/// two of them share a block.
pub open spec fn entries_ready(
    bytes: Seq<u8>,
    blocks: Map<u32, u32>,
    object: SerializedUntaggedObject,
    from: int,
    to: int,
) -> bool {
    &&& forall|i: int| from <= i < to ==> #[trigger] entry_ready(bytes, blocks, object, i)
    &&& forall|i: int, j: int|
        #![trigger entry_owned(bytes, object, i), entry_owned(bytes, object, j)]
        from <= i < j < to ==> entry_owned(bytes, object, i).disjoint(
            entry_owned(bytes, object, j),
        )
}

/// Whether the blocks of an object itself are there: one for its keys, and one for its values.
pub open spec fn object_blocks_ready(
    blocks: Map<u32, u32>,
    object: SerializedUntaggedObject,
) -> bool {
    object.length != 0 ==> {
        &&& blocks.contains_key(object.key_pointer)
        &&& blocks[object.key_pointer] == 8 * object.length
        &&& blocks.contains_key(object.value_pointer)
        &&& blocks[object.value_pointer] == 16 * object.length
    }
}

/// Whether an object can be taken over.
pub open spec fn object_ready(
    bytes: Seq<u8>,
    blocks: Map<u32, u32>,
    object: SerializedUntaggedObject,
) -> bool {
    &&& object_blocks_ready(blocks, object)
    &&& entries_ready(bytes, blocks, object, 0, object.length as int)
}

/// The properties of an object.
pub open spec fn object_js(bytes: Seq<u8>, object: SerializedUntaggedObject) -> Seq<
    (Seq<char>, JsValue),
> {
    Seq::new(
        object.length as nat,
        |i: int|
            (
                string_text(bytes, object_key_at(bytes, object.key_pointer, i)),
                value_js(bytes, element_at(bytes, object.value_pointer, i)->0),
            ),
    )
}

/// Deserializing an object gives the properties that it stands for, in order.
pub proof fn law_object_reads_meaning(
    bytes: Seq<u8>,
    region: Set<int>,
    value: SerializedValue,
    properties: Seq<(Seq<char>, JsValue)>,
)
    requires
        js_at(bytes, region, value, JsValue::Object(properties)),
        forall|i: int| 0 <= i < properties.len() ==> is_plain((#[trigger] properties[i]).1),
    ensures
        object_js(bytes, SerializedUntaggedObject::untagged(value)) == properties,
{
    let object = SerializedUntaggedObject::untagged(value);
    assert forall|i: int| 0 <= i < properties.len() implies #[trigger] object_js(bytes, object)[i]
        == properties[i] by {
        law_text_is_read(
            bytes,
            region,
            object_key_at(bytes, object.key_pointer, i),
            properties[i].0,
        );
        law_deserialize_reads_meaning(
            bytes,
            region,
            element_at(bytes, object.value_pointer, i)->0,
            properties[i].1,
        );
    }
    assert(object_js(bytes, object) =~= properties);
}

/// The properties of an object that is serialized and deserialized again are the same as before,
/// in the same order.
pub proof fn law_object_survives<K: ObjectKey>(
    initial: Seq<(K, Value)>,
    bytes: Seq<u8>,
    region: Set<int>,
    serialized: SerializedValue,
)
    requires
        js_at(bytes, region, serialized, JsValue::Object(entries_js(initial))),
    ensures
        object_js(bytes, SerializedUntaggedObject::untagged(serialized)).len() == initial.len(),
        forall|i: int|
            0 <= i < initial.len() ==> #[trigger] object_js(
                bytes,
                SerializedUntaggedObject::untagged(serialized),
            )[i] == (initial[i].0.text(), initial[i].1@),
{
    law_object_reads_meaning(bytes, region, serialized, entries_js(initial));
}

/// The properties of an object, deserialized one after the other.
#[derive(Debug)]
pub struct ObjectDeserializer {
    memory: LinearMemory,
    object: SerializedUntaggedObject,
    index: u32,
}

impl ObjectDeserializer {
    /// The contents of the memory.
    pub closed spec fn bytes(&self) -> Seq<u8> {
        self.memory.bytes()
    }

    /// The allocated blocks of the memory.
    pub closed spec fn blocks(&self) -> Map<u32, u32> {
        self.memory.blocks()
    }

    /// The object.
    pub closed spec fn object(&self) -> SerializedUntaggedObject {
        self.object
    }

    /// The index of the property that comes next.
    pub closed spec fn index(&self) -> int {
        self.index as int
    }

    /// Whether the properties that are left can be deserialized.
    pub closed spec fn wf(&self) -> bool {
        &&& self.memory.wf()
        &&& self.index <= self.object.length
        &&& object_blocks_ready(self.blocks(), self.object)
        &&& entries_ready(
            self.bytes(),
            self.blocks(),
            self.object,
            self.index(),
            self.object.length as int,
        )
    }

    /// What is known of every deserializer that is well formed.
    pub proof fn lemma_wf(&self)
        requires
            self.wf(),
        ensures
            0 <= self.index() <= self.object().length,
            object_blocks_ready(self.blocks(), self.object()),
            entries_ready(
                self.bytes(),
                self.blocks(),
                self.object(),
                self.index(),
                self.object().length as int,
            ),
    {
    }

    /// Whether `after` is what calls of [`ObjectDeserializer::next`] can make of `self`.
    pub open spec fn advances_to(&self, after: &ObjectDeserializer) -> bool {
        &&& after.wf()
        &&& after.object() == self.object()
        &&& after.bytes() == self.bytes()
        &&& self.index() <= after.index() <= self.object().length
        &&& after.blocks() == self.blocks().remove_keys(
            entries_owned(self.bytes(), self.object(), self.index(), after.index()),
        )
    }

    fn new(memory: LinearMemory, object: SerializedUntaggedObject) -> (deserializer: Self)
        requires
            memory.wf(),
            object_ready(memory.bytes(), memory.blocks(), object),
        ensures
            deserializer.wf(),
            deserializer.bytes() == memory.bytes(),
            deserializer.blocks() == memory.blocks(),
            deserializer.object() == object,
            deserializer.index() == 0,
    {
        ObjectDeserializer { memory, object, index: 0 }
    }

    /// Deserializes the next property, if one is left.
    pub fn next(&mut self) -> (entry: Option<(String, Value)>)
        requires
            old(self).wf(),
        ensures
            old(self).advances_to(final(self)),
            match entry {
                Some((key, value)) => {
                    &&& 0 <= old(self).index() < old(self).object().length
                    &&& final(self).index() == old(self).index() + 1
                    &&& (key@, value@) == object_js(
                        old(self).bytes(),
                        old(self).object(),
                    )[old(self).index()]
                },
                None => {
                    &&& old(self).index() == old(self).object().length
                    &&& final(self).index() == old(self).index()
                },
            },
    {
        let ghost bytes = self.bytes();
        let ghost blocks = self.blocks();
        let ghost first = self.index as int;
        if self.index >= self.object.length {
            assert(blocks =~= blocks.remove_keys(
                entries_owned(bytes, self.object, first, first),
            ));
            None
        } else {
            assert(entry_ready(bytes, blocks, self.object, first));
            assert(self.memory.blocks().contains_key(self.object.key_pointer));
            assert(self.memory.blocks().contains_key(self.object.value_pointer));
            let key = self.memory.read_key(self.object.key_pointer + 8 * self.index);
            match self.memory.read_value(self.object.value_pointer + 16 * self.index) {
                Some(element) => {
                    let text = key.deserialize(&mut self.memory);
                    proof {
                        lemma_value_stays_ready(bytes, blocks, string_owned(key), element);
                    }
                    let value = element.deserialize(&mut self.memory);
                    self.index = self.index + 1;
                    proof {
                        let owned = entry_owned(bytes, self.object, first);
                        assert(entries_owned(bytes, self.object, first, first + 1) =~= owned);
                        assert(self.blocks() =~= blocks.remove_keys(owned));
                        let after = self.blocks();
                        assert forall|i: int|
                            first < i < self.object.length implies #[trigger] entry_ready(
                            bytes,
                            after,
                            self.object,
                            i,
                        ) by {
                            assert(entry_ready(bytes, blocks, self.object, i));
                            let other = entry_owned(bytes, self.object, i);
                            assert(owned.disjoint(other));
                            let other_key = object_key_at(bytes, self.object.key_pointer, i);
                            let other_value = element_at(bytes, self.object.value_pointer, i)->0;
                            if other_key.length != 0 {
                                assert(other.contains(other_key.pointer));
                            }
                            assert(owned.disjoint(value_owned(other_value))) by {
                                assert(forall|p: u32|
                                    value_owned(other_value).contains(p)
                                        ==> #[trigger] other.contains(p));
                            }
                            lemma_value_stays_ready(bytes, blocks, owned, other_value);
                        }
                    }
                    Some((text, value))
                },
                None => None,
            }
        }
    }

    /// How many properties are left: at least, and at most.
    pub fn size_hint(&self) -> (hint: (usize, Option<usize>))
        requires
            self.wf(),
        ensures
            hint.0 == self.object().length - self.index(),
            hint.1 == Some(hint.0),
    {
        let remaining = (self.object.length - self.index) as usize;
        (remaining, Some(remaining))
    }

    /// Gives the blocks of the object back, and returns the memory.
    fn finish(self) -> (memory: LinearMemory)
        requires
            self.wf(),
        ensures
            memory.wf(),
            memory.bytes() == self.bytes(),
            memory.blocks() == if self.object().length == 0 {
                self.blocks()
            } else {
                self.blocks().remove(self.object().key_pointer).remove(self.object().value_pointer)
            },
    {
        let mut memory = self.memory;
        memory.deallocate(self.object.key_pointer, self.object.length as usize * 8);
        memory.deallocate(self.object.value_pointer, self.object.length as usize * 16);
        memory
    }
}

/// A value can still be deserialized after blocks are gone that are not its own.
proof fn lemma_value_stays_ready(
    bytes: Seq<u8>,
    blocks: Map<u32, u32>,
    gone: Set<u32>,
    value: SerializedValue,
)
    requires
        value_ready(bytes, blocks, value),
        gone.disjoint(value_owned(value)),
    ensures
        value_ready(bytes, blocks.remove_keys(gone), value),
{
    if value.tag == Tag::Str {
        let string = SerializedUntaggedString::untagged(value);
        if string.length != 0 {
            assert(value_owned(value).contains(string.pointer));
        }
    }
}

/// What two runs of calls of [`ObjectDeserializer::next`] make of an object, one run makes of it.
pub proof fn law_object_advances_compose(
    first: &ObjectDeserializer,
    second: &ObjectDeserializer,
    third: &ObjectDeserializer,
)
    requires
        first.advances_to(second),
        second.advances_to(third),
    ensures
        first.advances_to(third),
{
    let bytes = first.bytes();
    let object = first.object();
    assert(entries_owned(bytes, object, first.index(), third.index()) =~= entries_owned(
        bytes,
        object,
        first.index(),
        second.index(),
    ).union(entries_owned(bytes, object, second.index(), third.index())));
    assert(third.blocks() =~= first.blocks().remove_keys(
        entries_owned(bytes, object, first.index(), third.index()),
    ));
}

/// Takes over the object that JavaScript has serialized as `result`: the callback deserializes as
/// many of its properties as it likes.
pub fn deserialize_object<R, F: FnOnce(&mut ObjectDeserializer) -> R>(
    memory: &mut LinearMemory,
    result: &SerializedValue,
    callback: F,
) -> (output: R)
    requires
        old(memory).wf(),
        result.tag == Tag::Object,
        object_ready(
            old(memory).bytes(),
            old(memory).blocks(),
            SerializedUntaggedObject::untagged(*result),
        ),
        forall|deserializer: &mut ObjectDeserializer|
            (*deserializer).wf() && (*deserializer).index() == 0 && (*deserializer).object()
                == SerializedUntaggedObject::untagged(*result) && (*deserializer).bytes() == old(
                memory,
            ).bytes() && (*deserializer).blocks() == old(memory).blocks()
                ==> #[trigger] call_requires(callback, (deserializer,)),
        forall|deserializer: &mut ObjectDeserializer, output: R| #[trigger]
            call_ensures(callback, (deserializer,), output) && (*deserializer).wf()
                ==> (*deserializer).advances_to(final(deserializer)),
    ensures
        final(memory).wf(),
        exists|deserializer: &mut ObjectDeserializer|
            {
                &&& #[trigger] call_ensures(callback, (deserializer,), output)
                &&& (*deserializer).wf()
                &&& (*deserializer).index() == 0
                &&& (*deserializer).object() == SerializedUntaggedObject::untagged(*result)
                &&& (*deserializer).bytes() == old(memory).bytes()
                &&& (*deserializer).blocks() == old(memory).blocks()
                &&& final(memory).bytes() == (*final(deserializer)).bytes()
                &&& final(memory).blocks() == if (*deserializer).object().length == 0 {
                    (*final(deserializer)).blocks()
                } else {
                    (*final(deserializer)).blocks().remove(
                        (*deserializer).object().key_pointer,
                    ).remove((*deserializer).object().value_pointer)
                }
            },
{
    let object = result.as_object();
    let mut taken = LinearMemory::new();
    std::mem::swap(memory, &mut taken);
    let mut deserializer = ObjectDeserializer::new(taken, object);
    let ghost start = deserializer;
    let output = callback(&mut deserializer);
    assert(exists|d: &mut ObjectDeserializer| #[trigger]
        call_ensures(callback, (d,), output) && *d == start && *final(d) == deserializer);
    *memory = deserializer.finish();
    output
}

} // verus!
