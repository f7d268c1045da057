//! Values that are handed to JavaScript for good.

use vstd::prelude::*;
use std::marker::PhantomData;

use crate::arena::{extends, fresh, PreallocatedArena};
use crate::layout::law_word_sums;
use crate::meaning::js_at;
use crate::memory::measures;
use crate::serialize::JsSerialize;
use crate::serialized::{
    SerializedUntaggedFunction, SerializedUntaggedFunctionOnce, SerializedUntaggedNull,
    SerializedValue, Untagged,
};
use crate::tag::Tag;
use crate::value::JsValue;

verus! {

/// Marks a callback.
#[derive(Debug)]
pub struct FunctionTag;

/// Marks a value that is not a callback.
#[derive(Debug)]
pub struct NonFunctionTag;

/// A value, marked as a callback or as something else.
#[derive(Debug)]
pub struct Newtype<K, T> {
    pub value: T,
    pub kind: PhantomData<K>,
}

impl<K, T> Newtype<K, T> {
    /// Marks a value.
    pub fn new(value: T) -> (newtype: Self)
        ensures
            newtype.value == value,
    {
        Newtype { value, kind: PhantomData }
    }

    /// The value without its mark.
    pub fn unwrap_newtype(self) -> (value: T)
        ensures
            value == self.value,
    {
        self.value
    }
}

/// A callback that can be called a single time.
#[derive(Debug)]
pub struct Once<F>(pub F);

/// A closure that was moved to the heap: the addresses of the function that calls it, of itself,
/// and of the function that frees it. It owns the closure, so it cannot be copied.
#[derive(PartialEq, Eq, Debug)]
pub struct Callback {
    pub adapter_pointer: u32,
    pub pointer: u32,
    pub deallocator_pointer: u32,
}

/// A type whose values can be handed to JavaScript for good.
pub trait JsSerializeOwned: Sized {
    /// The JavaScript value that the value becomes.
    spec fn owned_js(&self) -> JsValue;

    /// How many bytes of the arena the serialization takes.
    spec fn owned_required(&self) -> nat;

    /// How many bytes the strings and slices take to which the serialization points.
    spec fn owned_placed(&self) -> nat;

    /// The serialized value, where `next` is the address of the first byte of the arena that is not
    /// handed out, and `end` that of the first byte after the memory.
    spec fn owned_record(&self, next: int, end: int) -> SerializedValue;

    /// Whether JavaScript becomes the owner of the value.
    spec fn moved() -> bool;

    /// Serializes the value. It is taken out of the option if JavaScript becomes its owner.
    fn into_js_owned(value: &mut Option<Self>, arena: &mut PreallocatedArena) -> (serialized:
        SerializedValue)
        requires
            *old(value) is Some,
            old(arena).wf(),
            (*old(value))->0.owned_required() <= old(arena).free(),
            (*old(value))->0.owned_placed() <= old(arena).room(),
        ensures
            *final(value) == if Self::moved() {
                None
            } else {
                *old(value)
            },
            extends(
                old(arena),
                final(arena),
                (*old(value))->0.owned_required(),
                (*old(value))->0.owned_placed(),
            ),
            js_at(
                final(arena).bytes(),
                fresh(old(arena), final(arena)),
                serialized,
                (*old(value))->0.owned_js(),
            ),
            serialized == (*old(value))->0.owned_record(
                old(arena).next(),
                old(arena).bytes().len() as int,
            ),
    ;

    /// How many bytes of the arena the serialization takes.
    fn memory_required_owned(&self) -> (size: usize)
        requires
            self.owned_required() <= usize::MAX,
        ensures
            size == self.owned_required(),
    ;

    /// How many bytes the strings and slices take to which the serialization points, unless no
    /// memory has room for them.
    fn memory_placed_owned(&self) -> (size: Option<u32>)
        ensures
            measures(size, self.owned_placed()),
    ;
}

impl<T: JsSerialize> JsSerializeOwned for Newtype<(NonFunctionTag, ()), T> {
    open spec fn owned_js(&self) -> JsValue {
        self.value.js()
    }

    open spec fn owned_required(&self) -> nat {
        self.value.required()
    }

    open spec fn owned_placed(&self) -> nat {
        self.value.placed()
    }

    open spec fn owned_record(&self, next: int, end: int) -> SerializedValue {
        self.value.record(next, end)
    }

    open spec fn moved() -> bool {
        false
    }

    fn into_js_owned(value: &mut Option<Self>, arena: &mut PreallocatedArena) -> (serialized:
        SerializedValue)
        ensures
            exists|given: &mut PreallocatedArena|
                *given == *old(arena) && *final(given) == *final(arena)
                    && #[trigger] call_ensures(
                    T::_into_js,
                    (&(*old(value))->0.value, given),
                    serialized,
                ),
    {
        value.as_ref().unwrap().value._into_js(arena)
    }

    fn memory_required_owned(&self) -> (size: usize) {
        self.value._memory_required()
    }

    fn memory_placed_owned(&self) -> (size: Option<u32>) {
        self.value._memory_placed()
    }
}

impl<A> JsSerializeOwned for Newtype<(FunctionTag, A), Once<Callback>> {
    open spec fn owned_js(&self) -> JsValue {
        let callback = self.value.0;
        JsValue::FunctionOnce(
            callback.adapter_pointer,
            callback.pointer,
            callback.deallocator_pointer,
        )
    }

    open spec fn owned_required(&self) -> nat {
        0
    }

    open spec fn owned_placed(&self) -> nat {
        0
    }

    open spec fn owned_record(&self, next: int, end: int) -> SerializedValue {
        (SerializedUntaggedFunctionOnce {
            adapter_pointer: self.value.0.adapter_pointer,
            pointer: self.value.0.pointer,
            deallocator_pointer: self.value.0.deallocator_pointer,
        }).tagged()
    }

    open spec fn moved() -> bool {
        true
    }

    fn into_js_owned(value: &mut Option<Self>, arena: &mut PreallocatedArena) -> (serialized:
        SerializedValue)
        ensures
            *final(arena) == *old(arena),
            serialized.tag == Tag::FunctionOnce,
            serialized.data_1 == (*old(value))->0.value.0.adapter_pointer + 0x1_0000_0000
                * (*old(value))->0.value.0.pointer,
            serialized.data_2 == (*old(value))->0.value.0.deallocator_pointer,
    {
        let callback = value.take().unwrap().unwrap_newtype().0;
        let data = SerializedUntaggedFunctionOnce {
            adapter_pointer: callback.adapter_pointer,
            pointer: callback.pointer,
            deallocator_pointer: callback.deallocator_pointer,
        };
        proof {
            data.law_data_round_trip();
            law_word_sums(0, data.adapter_pointer, data.pointer);
        }
        data.into_value()
    }

    fn memory_required_owned(&self) -> (size: usize) {
        0
    }

    fn memory_placed_owned(&self) -> (size: Option<u32>) {
        Some(0)
    }
}

impl<A> JsSerializeOwned for Newtype<(FunctionTag, A), Callback> {
    open spec fn owned_js(&self) -> JsValue {
        let callback = self.value;
        JsValue::Function(callback.adapter_pointer, callback.pointer, callback.deallocator_pointer)
    }

    open spec fn owned_required(&self) -> nat {
        0
    }

    open spec fn owned_placed(&self) -> nat {
        0
    }

    open spec fn owned_record(&self, next: int, end: int) -> SerializedValue {
        (SerializedUntaggedFunction {
            adapter_pointer: self.value.adapter_pointer,
            pointer: self.value.pointer,
            deallocator_pointer: self.value.deallocator_pointer,
        }).tagged()
    }

    open spec fn moved() -> bool {
        true
    }

    fn into_js_owned(value: &mut Option<Self>, arena: &mut PreallocatedArena) -> (serialized:
        SerializedValue)
        ensures
            *final(arena) == *old(arena),
            serialized.tag == Tag::Function,
            serialized.data_1 == (*old(value))->0.value.adapter_pointer + 0x1_0000_0000
                * (*old(value))->0.value.pointer,
            serialized.data_2 == (*old(value))->0.value.deallocator_pointer,
    {
        let callback = value.take().unwrap().unwrap_newtype();
        let data = SerializedUntaggedFunction {
            adapter_pointer: callback.adapter_pointer,
            pointer: callback.pointer,
            deallocator_pointer: callback.deallocator_pointer,
        };
        proof {
            data.law_data_round_trip();
            law_word_sums(0, data.adapter_pointer, data.pointer);
        }
        data.into_value()
    }

    fn memory_required_owned(&self) -> (size: usize) {
        0
    }

    fn memory_placed_owned(&self) -> (size: Option<u32>) {
        Some(0)
    }
}

impl<A> JsSerializeOwned for Newtype<(FunctionTag, A), Option<Callback>> {
    open spec fn owned_js(&self) -> JsValue {
        match self.value {
            Some(callback) => JsValue::Function(
                callback.adapter_pointer,
                callback.pointer,
                callback.deallocator_pointer,
            ),
            None => JsValue::Null,
        }
    }

    open spec fn owned_required(&self) -> nat {
        0
    }

    open spec fn owned_placed(&self) -> nat {
        0
    }

    open spec fn owned_record(&self, next: int, end: int) -> SerializedValue {
        match self.value {
            Some(callback) => (SerializedUntaggedFunction {
                adapter_pointer: callback.adapter_pointer,
                pointer: callback.pointer,
                deallocator_pointer: callback.deallocator_pointer,
            }).tagged(),
            None => SerializedUntaggedNull.tagged(),
        }
    }

    open spec fn moved() -> bool {
        true
    }

    fn into_js_owned(value: &mut Option<Self>, arena: &mut PreallocatedArena) -> (serialized:
        SerializedValue)
        ensures
            *final(arena) == *old(arena),
            match (*old(value))->0.value {
                Some(callback) => {
                    &&& serialized.tag == Tag::Function
                    &&& serialized.data_1 == callback.adapter_pointer + 0x1_0000_0000
                        * callback.pointer
                    &&& serialized.data_2 == callback.deallocator_pointer
                },
                None => serialized.tag == Tag::Null,
            },
    {
        if let Some(callback) = value.take().unwrap().unwrap_newtype() {
            let data = SerializedUntaggedFunction {
                adapter_pointer: callback.adapter_pointer,
                pointer: callback.pointer,
                deallocator_pointer: callback.deallocator_pointer,
            };
            proof {
                data.law_data_round_trip();
                law_word_sums(0, data.adapter_pointer, data.pointer);
            }
            data.into_value()
        } else {
            SerializedUntaggedNull.into_value()
        }
    }

    fn memory_required_owned(&self) -> (size: usize) {
        0
    }

    fn memory_placed_owned(&self) -> (size: Option<u32>) {
        Some(0)
    }
}

/// Callbacks are handed over once: their option is empty afterwards, and holds nothing to hand over
/// again. Other values stay where they are.
pub proof fn law_only_callbacks_are_moved<A, T: JsSerialize>()
    ensures
        Newtype::<(FunctionTag, A), Once<Callback>>::moved(),
        Newtype::<(FunctionTag, A), Callback>::moved(),
        Newtype::<(FunctionTag, A), Option<Callback>>::moved(),
        !Newtype::<(NonFunctionTag, ()), T>::moved(),
{
}

} // verus!
