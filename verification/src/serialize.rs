//! Rust values that can be handed to JavaScript.

use vstd::prelude::*;
use vstd::utf8::encode_utf8;

use crate::arena::{extends, fresh, lemma_extends_trans, PreallocatedArena};
use crate::float::{f32_as_f64, u32_as_f64, Float32, Float64};
use crate::meaning::{element_at, js_at, law_meaning_is_framed};
use crate::memory::{measures, padded, padded_size, total_size};
use crate::serialized::{
    value_at, SerializedUntaggedArray, SerializedUntaggedF64, SerializedUntaggedFalse,
    SerializedUntaggedI32, SerializedUntaggedNull, SerializedUntaggedReference,
    SerializedUntaggedString, SerializedUntaggedSymbol, SerializedUntaggedTrue,
    SerializedUntaggedUndefined, SerializedValue, Untagged,
};
use crate::value::{JsValue, Null, Number, Reference, Symbol, Undefined, Value};

verus! {

/// A type whose values can be serialized.
///
/// Do **not** try to implement this trait yourself! It's only meant to be used inside generic code
/// for specifying trait bounds.
pub trait JsSerialize {
    /// The JavaScript value that the value becomes.
    spec fn js(&self) -> JsValue;

    /// How many bytes of the arena the serialization takes.
    spec fn required(&self) -> nat;

    /// How many bytes the strings and slices take to which the serialization points, with the
    /// padding that follows each. They lie outside the buffer of the arena.
    spec fn placed(&self) -> nat;

    /// The serialized value, where `next` is the address of the first byte of the arena that is not
    /// handed out, and `end` that of the first byte after the memory.
    spec fn record(&self, next: int, end: int) -> SerializedValue;

    /// Serializes the value. What it reaches is written into the arena.
    fn _into_js(&self, arena: &mut PreallocatedArena) -> (value: SerializedValue)
        requires
            old(arena).wf(),
            self.required() <= old(arena).free(),
            self.placed() <= old(arena).room(),
        ensures
            extends(old(arena), final(arena), self.required(), self.placed()),
            js_at(final(arena).bytes(), fresh(old(arena), final(arena)), value, self.js()),
            value == self.record(old(arena).next(), old(arena).bytes().len() as int),
    ;

    /// How many bytes of the arena the serialization takes.
    fn _memory_required(&self) -> (size: usize)
        requires
            self.required() <= usize::MAX,
        ensures
            size == self.required(),
    ;

    /// How many bytes the strings and slices take to which the serialization points, unless no
    /// memory has room for them.
    fn _memory_placed(&self) -> (size: Option<u32>)
        ensures
            measures(size, self.placed()),
    ;

    /// What a value takes of the arena keeps it aligned to eight bytes.
    proof fn law_required_is_aligned(&self)
        ensures
            self.required() % 8 == 0,
    ;
}

impl JsSerialize for () {
    open spec fn js(&self) -> JsValue {
        JsValue::Undefined
    }

    open spec fn required(&self) -> nat {
        0
    }

    open spec fn placed(&self) -> nat {
        0
    }

    open spec fn record(&self, next: int, end: int) -> SerializedValue {
        SerializedUntaggedUndefined.tagged()
    }

    fn _into_js(&self, arena: &mut PreallocatedArena) -> (value: SerializedValue)
        ensures
            *final(arena) == *old(arena),
    {
        SerializedUntaggedUndefined.into_value()
    }

    fn _memory_required(&self) -> (size: usize) {
        0
    }

    fn _memory_placed(&self) -> (size: Option<u32>) {
        Some(0)
    }

    proof fn law_required_is_aligned(&self) {
    }
}

impl JsSerialize for Undefined {
    open spec fn js(&self) -> JsValue {
        JsValue::Undefined
    }

    open spec fn required(&self) -> nat {
        0
    }

    open spec fn placed(&self) -> nat {
        0
    }

    open spec fn record(&self, next: int, end: int) -> SerializedValue {
        SerializedUntaggedUndefined.tagged()
    }

    fn _into_js(&self, arena: &mut PreallocatedArena) -> (value: SerializedValue)
        ensures
            *final(arena) == *old(arena),
    {
        SerializedUntaggedUndefined.into_value()
    }

    fn _memory_required(&self) -> (size: usize) {
        0
    }

    fn _memory_placed(&self) -> (size: Option<u32>) {
        Some(0)
    }

    proof fn law_required_is_aligned(&self) {
    }
}

impl JsSerialize for Null {
    open spec fn js(&self) -> JsValue {
        JsValue::Null
    }

    open spec fn required(&self) -> nat {
        0
    }

    open spec fn placed(&self) -> nat {
        0
    }

    open spec fn record(&self, next: int, end: int) -> SerializedValue {
        SerializedUntaggedNull.tagged()
    }

    fn _into_js(&self, arena: &mut PreallocatedArena) -> (value: SerializedValue)
        ensures
            *final(arena) == *old(arena),
    {
        SerializedUntaggedNull.into_value()
    }

    fn _memory_required(&self) -> (size: usize) {
        0
    }

    fn _memory_placed(&self) -> (size: Option<u32>) {
        Some(0)
    }

    proof fn law_required_is_aligned(&self) {
    }
}

impl JsSerialize for Symbol {
    open spec fn js(&self) -> JsValue {
        JsValue::Symbol(self.0)
    }

    open spec fn required(&self) -> nat {
        0
    }

    open spec fn placed(&self) -> nat {
        0
    }

    open spec fn record(&self, next: int, end: int) -> SerializedValue {
        (SerializedUntaggedSymbol { id: self.0 }).tagged()
    }

    fn _into_js(&self, arena: &mut PreallocatedArena) -> (value: SerializedValue)
        ensures
            *final(arena) == *old(arena),
    {
        proof {
            (SerializedUntaggedSymbol { id: self.0 }).law_data_round_trip();
        }
        (SerializedUntaggedSymbol { id: self.0 }).into_value()
    }

    fn _memory_required(&self) -> (size: usize) {
        0
    }

    fn _memory_placed(&self) -> (size: Option<u32>) {
        Some(0)
    }

    proof fn law_required_is_aligned(&self) {
    }
}

impl JsSerialize for Reference {
    open spec fn js(&self) -> JsValue {
        JsValue::Reference(self.refid)
    }

    open spec fn required(&self) -> nat {
        0
    }

    open spec fn placed(&self) -> nat {
        0
    }

    open spec fn record(&self, next: int, end: int) -> SerializedValue {
        (SerializedUntaggedReference { refid: self.refid }).tagged()
    }

    fn _into_js(&self, arena: &mut PreallocatedArena) -> (value: SerializedValue)
        ensures
            *final(arena) == *old(arena),
    {
        proof {
            (SerializedUntaggedReference { refid: self.refid }).law_data_round_trip();
        }
        (SerializedUntaggedReference { refid: self.as_raw() }).into_value()
    }

    fn _memory_required(&self) -> (size: usize) {
        0
    }

    fn _memory_placed(&self) -> (size: Option<u32>) {
        Some(0)
    }

    proof fn law_required_is_aligned(&self) {
    }
}

impl JsSerialize for bool {
    open spec fn js(&self) -> JsValue {
        JsValue::Bool(*self)
    }

    open spec fn required(&self) -> nat {
        0
    }

    open spec fn placed(&self) -> nat {
        0
    }

    open spec fn record(&self, next: int, end: int) -> SerializedValue {
        if *self {
            SerializedUntaggedTrue.tagged()
        } else {
            SerializedUntaggedFalse.tagged()
        }
    }

    fn _into_js(&self, arena: &mut PreallocatedArena) -> (value: SerializedValue)
        ensures
            *final(arena) == *old(arena),
    {
        if *self {
            SerializedUntaggedTrue.into_value()
        } else {
            SerializedUntaggedFalse.into_value()
        }
    }

    fn _memory_required(&self) -> (size: usize) {
        0
    }

    fn _memory_placed(&self) -> (size: Option<u32>) {
        Some(0)
    }

    proof fn law_required_is_aligned(&self) {
    }
}

impl JsSerialize for i8 {
    open spec fn js(&self) -> JsValue {
        JsValue::I32(*self as i32)
    }

    open spec fn required(&self) -> nat {
        0
    }

    open spec fn placed(&self) -> nat {
        0
    }

    open spec fn record(&self, next: int, end: int) -> SerializedValue {
        (SerializedUntaggedI32 { value: *self as i32 }).tagged()
    }

    fn _into_js(&self, arena: &mut PreallocatedArena) -> (value: SerializedValue)
        ensures
            *final(arena) == *old(arena),
    {
        proof {
            (SerializedUntaggedI32 { value: *self as i32 }).law_data_round_trip();
        }
        (SerializedUntaggedI32 { value: *self as i32 }).into_value()
    }

    fn _memory_required(&self) -> (size: usize) {
        (*self as i32)._memory_required()
    }

    fn _memory_placed(&self) -> (size: Option<u32>) {
        Some(0)
    }

    proof fn law_required_is_aligned(&self) {
    }
}

impl JsSerialize for i16 {
    open spec fn js(&self) -> JsValue {
        JsValue::I32(*self as i32)
    }

    open spec fn required(&self) -> nat {
        0
    }

    open spec fn placed(&self) -> nat {
        0
    }

    open spec fn record(&self, next: int, end: int) -> SerializedValue {
        (SerializedUntaggedI32 { value: *self as i32 }).tagged()
    }

    fn _into_js(&self, arena: &mut PreallocatedArena) -> (value: SerializedValue)
        ensures
            *final(arena) == *old(arena),
    {
        proof {
            (SerializedUntaggedI32 { value: *self as i32 }).law_data_round_trip();
        }
        (SerializedUntaggedI32 { value: *self as i32 }).into_value()
    }

    fn _memory_required(&self) -> (size: usize) {
        (*self as i32)._memory_required()
    }

    fn _memory_placed(&self) -> (size: Option<u32>) {
        Some(0)
    }

    proof fn law_required_is_aligned(&self) {
    }
}

impl JsSerialize for i32 {
    open spec fn js(&self) -> JsValue {
        JsValue::I32(*self)
    }

    open spec fn required(&self) -> nat {
        0
    }

    open spec fn placed(&self) -> nat {
        0
    }

    open spec fn record(&self, next: int, end: int) -> SerializedValue {
        (SerializedUntaggedI32 { value: *self }).tagged()
    }

    fn _into_js(&self, arena: &mut PreallocatedArena) -> (value: SerializedValue)
        ensures
            *final(arena) == *old(arena),
    {
        proof {
            (SerializedUntaggedI32 { value: *self }).law_data_round_trip();
        }
        (SerializedUntaggedI32 { value: *self }).into_value()
    }

    fn _memory_required(&self) -> (size: usize) {
        0
    }

    fn _memory_placed(&self) -> (size: Option<u32>) {
        Some(0)
    }

    proof fn law_required_is_aligned(&self) {
    }
}

impl JsSerialize for u8 {
    open spec fn js(&self) -> JsValue {
        JsValue::I32(*self as i32)
    }

    open spec fn required(&self) -> nat {
        0
    }

    open spec fn placed(&self) -> nat {
        0
    }

    open spec fn record(&self, next: int, end: int) -> SerializedValue {
        (SerializedUntaggedI32 { value: *self as i32 }).tagged()
    }

    fn _into_js(&self, arena: &mut PreallocatedArena) -> (value: SerializedValue)
        ensures
            *final(arena) == *old(arena),
    {
        proof {
            (SerializedUntaggedI32 { value: *self as i32 }).law_data_round_trip();
        }
        (SerializedUntaggedI32 { value: *self as i32 }).into_value()
    }

    fn _memory_required(&self) -> (size: usize) {
        (*self as i32)._memory_required()
    }

    fn _memory_placed(&self) -> (size: Option<u32>) {
        Some(0)
    }

    proof fn law_required_is_aligned(&self) {
    }
}

impl JsSerialize for u16 {
    open spec fn js(&self) -> JsValue {
        JsValue::I32(*self as i32)
    }

    open spec fn required(&self) -> nat {
        0
    }

    open spec fn placed(&self) -> nat {
        0
    }

    open spec fn record(&self, next: int, end: int) -> SerializedValue {
        (SerializedUntaggedI32 { value: *self as i32 }).tagged()
    }

    fn _into_js(&self, arena: &mut PreallocatedArena) -> (value: SerializedValue)
        ensures
            *final(arena) == *old(arena),
    {
        proof {
            (SerializedUntaggedI32 { value: *self as i32 }).law_data_round_trip();
        }
        (SerializedUntaggedI32 { value: *self as i32 }).into_value()
    }

    fn _memory_required(&self) -> (size: usize) {
        (*self as i32)._memory_required()
    }

    fn _memory_placed(&self) -> (size: Option<u32>) {
        Some(0)
    }

    proof fn law_required_is_aligned(&self) {
    }
}

impl JsSerialize for u32 {
    open spec fn js(&self) -> JsValue {
        JsValue::F64(u32_as_f64(*self))
    }

    open spec fn required(&self) -> nat {
        0
    }

    open spec fn placed(&self) -> nat {
        0
    }

    open spec fn record(&self, next: int, end: int) -> SerializedValue {
        (SerializedUntaggedF64 { value: Float64 { bits: u32_as_f64(*self) } }).tagged()
    }

    fn _into_js(&self, arena: &mut PreallocatedArena) -> (value: SerializedValue)
        ensures
            *final(arena) == *old(arena),
    {
        (SerializedUntaggedF64 { value: Float64::from_u32(*self) }).into_value()
    }

    fn _memory_required(&self) -> (size: usize) {
        Float64::from_u32(*self)._memory_required()
    }

    fn _memory_placed(&self) -> (size: Option<u32>) {
        Some(0)
    }

    proof fn law_required_is_aligned(&self) {
    }
}

impl JsSerialize for Float32 {
    open spec fn js(&self) -> JsValue {
        JsValue::F64(f32_as_f64(*self))
    }

    open spec fn required(&self) -> nat {
        0
    }

    open spec fn placed(&self) -> nat {
        0
    }

    open spec fn record(&self, next: int, end: int) -> SerializedValue {
        (SerializedUntaggedF64 { value: Float64 { bits: f32_as_f64(*self) } }).tagged()
    }

    fn _into_js(&self, arena: &mut PreallocatedArena) -> (value: SerializedValue)
        ensures
            *final(arena) == *old(arena),
    {
        (SerializedUntaggedF64 { value: Float64::from_f32(*self) }).into_value()
    }

    fn _memory_required(&self) -> (size: usize) {
        Float64::from_f32(*self)._memory_required()
    }

    fn _memory_placed(&self) -> (size: Option<u32>) {
        Some(0)
    }

    proof fn law_required_is_aligned(&self) {
    }
}

impl JsSerialize for Float64 {
    open spec fn js(&self) -> JsValue {
        JsValue::F64(self.bits)
    }

    open spec fn required(&self) -> nat {
        0
    }

    open spec fn placed(&self) -> nat {
        0
    }

    open spec fn record(&self, next: int, end: int) -> SerializedValue {
        (SerializedUntaggedF64 { value: *self }).tagged()
    }

    fn _into_js(&self, arena: &mut PreallocatedArena) -> (value: SerializedValue)
        ensures
            *final(arena) == *old(arena),
    {
        (SerializedUntaggedF64 { value: *self }).into_value()
    }

    fn _memory_required(&self) -> (size: usize) {
        0
    }

    fn _memory_placed(&self) -> (size: Option<u32>) {
        Some(0)
    }

    proof fn law_required_is_aligned(&self) {
    }
}

impl JsSerialize for Number {
    open spec fn js(&self) -> JsValue {
        self@
    }

    open spec fn required(&self) -> nat {
        0
    }

    open spec fn placed(&self) -> nat {
        0
    }

    open spec fn record(&self, next: int, end: int) -> SerializedValue {
        match *self {
            Number::I32(value) => (SerializedUntaggedI32 { value }).tagged(),
            Number::F64(value) => (SerializedUntaggedF64 { value }).tagged(),
        }
    }

    fn _into_js(&self, arena: &mut PreallocatedArena) -> (value: SerializedValue)
        ensures
            *final(arena) == *old(arena),
    {
        match self {
            Number::I32(value) => value._into_js(arena),
            Number::F64(value) => value._into_js(arena),
        }
    }

    fn _memory_required(&self) -> (size: usize) {
        0
    }

    fn _memory_placed(&self) -> (size: Option<u32>) {
        Some(0)
    }

    proof fn law_required_is_aligned(&self) {
    }
}

impl JsSerialize for str {
    open spec fn js(&self) -> JsValue {
        JsValue::Str(self@)
    }

    open spec fn required(&self) -> nat {
        0
    }

    open spec fn placed(&self) -> nat {
        padded(encode_utf8(self@).len())
    }

    open spec fn record(&self, next: int, end: int) -> SerializedValue {
        (SerializedUntaggedString {
            pointer: end as u32,
            length: encode_utf8(self@).len() as u32,
        }).tagged()
    }

    fn _into_js(&self, arena: &mut PreallocatedArena) -> (value: SerializedValue) {
        assert(self.placed() == padded(encode_utf8(self@).len()));
        assert(self.js() == JsValue::Str(self@));
        assert(self.required() == 0);
        assert(self.record(old(arena).next(), old(arena).bytes().len() as int) == (
        SerializedUntaggedString {
            pointer: old(arena).bytes().len() as u32,
            length: encode_utf8(self@).len() as u32,
        }).tagged());
        let bytes = self.as_bytes();
        let length = bytes.len() as u32;
        let pointer = arena.place(bytes);
        proof {
            (SerializedUntaggedString { pointer, length }).law_data_round_trip();
        }
        (SerializedUntaggedString { pointer, length }).into_value()
    }

    fn _memory_required(&self) -> (size: usize) {
        0
    }

    fn _memory_placed(&self) -> (size: Option<u32>) {
        padded_size(self.as_bytes().len())
    }

    proof fn law_required_is_aligned(&self) {
    }
}

impl JsSerialize for String {
    open spec fn js(&self) -> JsValue {
        JsValue::Str(self@)
    }

    open spec fn required(&self) -> nat {
        0
    }

    open spec fn placed(&self) -> nat {
        padded(encode_utf8(self@).len())
    }

    open spec fn record(&self, next: int, end: int) -> SerializedValue {
        (SerializedUntaggedString {
            pointer: end as u32,
            length: encode_utf8(self@).len() as u32,
        }).tagged()
    }

    fn _into_js(&self, arena: &mut PreallocatedArena) -> (value: SerializedValue) {
        self.as_str()._into_js(arena)
    }

    fn _memory_required(&self) -> (size: usize) {
        self.as_str()._memory_required()
    }

    fn _memory_placed(&self) -> (size: Option<u32>) {
        self.as_str()._memory_placed()
    }

    proof fn law_required_is_aligned(&self) {
    }
}

impl<T: JsSerialize> JsSerialize for Option<T> {
    open spec fn js(&self) -> JsValue {
        match *self {
            Some(value) => value.js(),
            None => JsValue::Null,
        }
    }

    open spec fn required(&self) -> nat {
        match *self {
            Some(value) => value.required(),
            None => 0,
        }
    }

    open spec fn placed(&self) -> nat {
        match *self {
            Some(value) => value.placed(),
            None => 0,
        }
    }

    open spec fn record(&self, next: int, end: int) -> SerializedValue {
        match *self {
            Some(value) => value.record(next, end),
            None => SerializedUntaggedNull.tagged(),
        }
    }

    fn _into_js(&self, arena: &mut PreallocatedArena) -> (value: SerializedValue)
        ensures
            *self is None ==> *final(arena) == *old(arena),
            *self is Some ==> exists|given: &mut PreallocatedArena|
                *given == *old(arena) && *final(given) == *final(arena)
                    && #[trigger] call_ensures(T::_into_js, (&(*self)->0, given), value),
    {
        if let Some(value) = self.as_ref() {
            value._into_js(arena)
        } else {
            SerializedUntaggedNull.into_value()
        }
    }

    fn _memory_required(&self) -> (size: usize) {
        if let Some(value) = self.as_ref() {
            value._memory_required()
        } else {
            0
        }
    }

    fn _memory_placed(&self) -> (size: Option<u32>) {
        if let Some(value) = self.as_ref() {
            value._memory_placed()
        } else {
            Some(0)
        }
    }

    proof fn law_required_is_aligned(&self) {
        if let Some(value) = *self {
            value.law_required_is_aligned();
        }
    }
}

/// The JavaScript values that the elements of a sequence become.
pub open spec fn items_js<T: JsSerialize>(items: Seq<T>) -> Seq<JsValue> {
    Seq::new(items.len(), |i: int| items[i].js())
}

/// How many bytes of the arena the first `n` elements of a sequence take.
pub open spec fn items_required<T: JsSerialize>(items: Seq<T>, n: nat) -> nat
    decreases n,
{
    if n == 0 {
        0
    } else {
        items_required(items, (n - 1) as nat) + items[n - 1].required()
    }
}

/// How many bytes the strings and slices take to which the first `n` elements of a sequence
/// point.
pub open spec fn items_placed<T: JsSerialize>(items: Seq<T>, n: nat) -> nat
    decreases n,
{
    if n == 0 {
        0
    } else {
        items_placed(items, (n - 1) as nat) + items[n - 1].placed()
    }
}

proof fn lemma_items_monotone<T: JsSerialize>(items: Seq<T>, n: nat, m: nat)
    requires
        n <= m,
    ensures
        items_required(items, n) <= items_required(items, m),
        items_placed(items, n) <= items_placed(items, m),
    decreases m,
{
    if n < m {
        lemma_items_monotone(items, n, (m - 1) as nat);
    }
}

proof fn lemma_items_aligned<T: JsSerialize>(items: Seq<T>, n: nat)
    ensures
        items_required(items, n) % 8 == 0,
    decreases n,
{
    if n > 0 {
        lemma_items_aligned(items, (n - 1) as nat);
        items[n - 1].law_required_is_aligned();
    }
}

impl<T: JsSerialize> JsSerialize for [T] {
    open spec fn js(&self) -> JsValue {
        JsValue::Array(items_js(self@))
    }

    open spec fn required(&self) -> nat {
        16 * self@.len() + items_required(self@, self@.len())
    }

    open spec fn placed(&self) -> nat {
        items_placed(self@, self@.len())
    }

    open spec fn record(&self, next: int, end: int) -> SerializedValue {
        (SerializedUntaggedArray { pointer: next as u32, length: self@.len() as u32 }).tagged()
    }

    fn _into_js(&self, arena: &mut PreallocatedArena) -> (value: SerializedValue) {
        let count = self.len();
        let pointer = arena.reserve::<SerializedValue>(count);
        let ghost start = *old(arena);
        let ghost reserved = *arena;
        let mut i: usize = 0;
        proof {
            start.lemma_wf();
            reserved.lemma_wf();
        }
        while i < count
            invariant
                i <= count,
                count == self@.len(),
                start.wf(),
                self.required() <= start.free(),
                self.placed() <= start.room(),
                extends(&start, &reserved, 16 * count as nat, 0),
                reserved.bytes() == start.bytes(),
                pointer == start.next(),
                extends(
                    &start,
                    arena,
                    16 * count as nat + items_required(self@, i as nat),
                    items_placed(self@, i as nat),
                ),
                forall|j: int|
                    #![trigger element_at(arena.bytes(), pointer, j)]
                    0 <= j < i ==> {
                        &&& element_at(arena.bytes(), pointer, j) is Some
                        &&& js_at(
                            arena.bytes(),
                            fresh(&reserved, arena),
                            element_at(arena.bytes(), pointer, j)->0,
                            self@[j].js(),
                        )
                    },
            decreases count - i,
        {
            let ghost before = *arena;
            proof {
                start.lemma_wf();
                before.lemma_wf();
                lemma_items_monotone(self@, (i + 1) as nat, count as nat);
            }
            let element = self[i]._into_js(arena);
            let ghost between = *arena;
            arena.write_value(pointer + 16 * i as u32, element);
            proof {
                lemma_element_step(
                    self@,
                    start,
                    reserved,
                    before,
                    between,
                    *arena,
                    pointer,
                    i as int,
                    element,
                );
            }
            i = i + 1;
        }
        let length = count as u32;
        proof {
            (SerializedUntaggedArray { pointer, length }).law_data_round_trip();
            lemma_array_done(self@, start, reserved, *arena, pointer);
        }
        (SerializedUntaggedArray { pointer, length }).into_value()
    }

    fn _memory_required(&self) -> (size: usize) {
        let count = self.len();
        proof {
            lemma_items_monotone(self@, 0, count as nat);
        }
        let mut size: usize = 16 * count;
        let mut i: usize = 0;
        while i < count
            invariant
                i <= count,
                count == self@.len(),
                self.required() <= usize::MAX,
                size == 16 * count + items_required(self@, i as nat),
            decreases count - i,
        {
            proof {
                lemma_items_monotone(self@, (i + 1) as nat, count as nat);
            }
            size = size + self[i]._memory_required();
            i = i + 1;
        }
        size
    }

    fn _memory_placed(&self) -> (size: Option<u32>) {
        let count = self.len();
        let mut size: Option<u32> = Some(0);
        let mut i: usize = 0;
        while i < count
            invariant
                i <= count,
                count == self@.len(),
                measures(size, items_placed(self@, i as nat)),
            decreases count - i,
        {
            size = total_size(size, self[i]._memory_placed());
            i = i + 1;
        }
        size
    }

    proof fn law_required_is_aligned(&self) {
        lemma_items_aligned(self@, self@.len());
    }
}

impl<T: JsSerialize> JsSerialize for Vec<T> {
    open spec fn js(&self) -> JsValue {
        JsValue::Array(items_js(self@))
    }

    open spec fn required(&self) -> nat {
        16 * self@.len() + items_required(self@, self@.len())
    }

    open spec fn placed(&self) -> nat {
        items_placed(self@, self@.len())
    }

    open spec fn record(&self, next: int, end: int) -> SerializedValue {
        (SerializedUntaggedArray { pointer: next as u32, length: self@.len() as u32 }).tagged()
    }

    fn _into_js(&self, arena: &mut PreallocatedArena) -> (value: SerializedValue) {
        self.as_slice()._into_js(arena)
    }

    fn _memory_required(&self) -> (size: usize) {
        self.as_slice()._memory_required()
    }

    fn _memory_placed(&self) -> (size: Option<u32>) {
        self.as_slice()._memory_placed()
    }

    proof fn law_required_is_aligned(&self) {
        lemma_items_aligned(self@, self@.len());
    }
}

impl JsSerialize for Value {
    open spec fn js(&self) -> JsValue {
        self@
    }

    open spec fn required(&self) -> nat {
        0
    }

    open spec fn placed(&self) -> nat {
        match *self {
            Value::String(value) => value.placed(),
            _ => 0,
        }
    }

    open spec fn record(&self, next: int, end: int) -> SerializedValue {
        match *self {
            Value::Undefined => SerializedUntaggedUndefined.tagged(),
            Value::Null => SerializedUntaggedNull.tagged(),
            Value::Bool(value) => value.record(next, end),
            Value::Number(value) => value.record(next, end),
            Value::Symbol(value) => value.record(next, end),
            Value::String(value) => value.record(next, end),
            Value::Reference(value) => value.record(next, end),
        }
    }

    fn _into_js(&self, arena: &mut PreallocatedArena) -> (value: SerializedValue)
        ensures
            !(*self is String) ==> *final(arena) == *old(arena),
    {
        match self {
            Value::Undefined => SerializedUntaggedUndefined.into_value(),
            Value::Null => SerializedUntaggedNull.into_value(),
            Value::Bool(value) => value._into_js(arena),
            Value::Number(value) => value._into_js(arena),
            Value::Symbol(value) => value._into_js(arena),
            Value::String(value) => value._into_js(arena),
            Value::Reference(value) => value._into_js(arena),
        }
    }

    fn _memory_required(&self) -> (size: usize) {
        match self {
            Value::Undefined => Undefined._memory_required(),
            Value::Null => Null._memory_required(),
            Value::Bool(value) => value._memory_required(),
            Value::Number(value) => value._memory_required(),
            Value::Symbol(value) => value._memory_required(),
            Value::String(value) => value._memory_required(),
            Value::Reference(value) => value._memory_required(),
        }
    }

    fn _memory_placed(&self) -> (size: Option<u32>) {
        match self {
            Value::String(value) => value._memory_placed(),
            _ => Some(0),
        }
    }

    proof fn law_required_is_aligned(&self) {
    }
}

impl<'a, T: ?Sized + JsSerialize> JsSerialize for &'a T {
    open spec fn js(&self) -> JsValue {
        (**self).js()
    }

    open spec fn required(&self) -> nat {
        (**self).required()
    }

    open spec fn placed(&self) -> nat {
        (**self).placed()
    }

    open spec fn record(&self, next: int, end: int) -> SerializedValue {
        (**self).record(next, end)
    }

    fn _into_js(&self, arena: &mut PreallocatedArena) -> (value: SerializedValue)
        ensures
            exists|given: &mut PreallocatedArena|
                *given == *old(arena) && *final(given) == *final(arena)
                    && #[trigger] call_ensures(T::_into_js, (*self, given), value),
    {
        T::_into_js(*self, arena)
    }

    fn _memory_required(&self) -> (size: usize) {
        T::_memory_required(*self)
    }

    fn _memory_placed(&self) -> (size: Option<u32>) {
        T::_memory_placed(*self)
    }

    proof fn law_required_is_aligned(&self) {
        (**self).law_required_is_aligned();
    }
}

/// A reference is serialized like the value that it refers to.
pub proof fn law_borrowed_serializes_alike<T: ?Sized + JsSerialize>(value: &T)
    ensures
        (&value).js() == value.js(),
        (&value).required() == value.required(),
        (&value).placed() == value.placed(),
        forall|next: int, end: int| #[trigger]
            (&value).record(next, end) == value.record(next, end),
{
}

/// The option leaves no trace of itself: what is in it is serialized as it would be without it, and
/// nothing is serialized as `null`.
pub proof fn law_option_serializes_alike<T: JsSerialize>(value: T)
    ensures
        Some(value).js() == value.js(),
        Some(value).required() == value.required(),
        Some(value).placed() == value.placed(),
        forall|next: int, end: int| #[trigger]
            Some(value).record(next, end) == value.record(next, end),
        None::<T>.js() == JsValue::Null,
        None::<T>.required() == 0,
        None::<T>.placed() == 0,
        forall|next: int, end: int| #[trigger]
            None::<T>.record(next, end) == SerializedUntaggedNull.tagged(),
        Some(None::<T>).js() == None::<T>.js(),
{
}

/// A string and its text are serialized alike.
pub proof fn law_string_serializes_like_str(string: String, text: &str)
    requires
        string@ == text@,
    ensures
        string.js() == text.js(),
        string.required() == text.required(),
        string.placed() == text.placed(),
        forall|next: int, end: int| #[trigger]
            string.record(next, end) == text.record(next, end),
{
}

/// A vector and the slice of its elements are serialized alike.
pub proof fn law_vector_serializes_like_slice<T: JsSerialize>(vector: Vec<T>, slice: &[T])
    requires
        vector@ == slice@,
    ensures
        vector.js() == slice.js(),
        vector.required() == slice.required(),
        vector.placed() == slice.placed(),
        forall|next: int, end: int| #[trigger]
            vector.record(next, end) == slice.record(next, end),
{
}

/// A value that points at nothing takes no memory, and one that is a string takes none of the
/// arena.
pub proof fn law_plain_values_take_no_memory(
    integers: (i8, i16, i32, u8, u16, u32),
    floats: (Float32, Float64),
    boolean: bool,
    number: Number,
    symbol: Symbol,
    reference: Reference,
    value: Value,
)
    ensures
        ().required() == 0 && ().placed() == 0,
        Undefined.required() == 0 && Undefined.placed() == 0,
        Null.required() == 0 && Null.placed() == 0,
        integers.0.required() == 0 && integers.0.placed() == 0,
        integers.1.required() == 0 && integers.1.placed() == 0,
        integers.2.required() == 0 && integers.2.placed() == 0,
        integers.3.required() == 0 && integers.3.placed() == 0,
        integers.4.required() == 0 && integers.4.placed() == 0,
        integers.5.required() == 0 && integers.5.placed() == 0,
        floats.0.required() == 0 && floats.0.placed() == 0,
        floats.1.required() == 0 && floats.1.placed() == 0,
        boolean.required() == 0 && boolean.placed() == 0,
        number.required() == 0 && number.placed() == 0,
        symbol.required() == 0 && symbol.placed() == 0,
        reference.required() == 0 && reference.placed() == 0,
        value.required() == 0,
        !(value is String) ==> value.placed() == 0,
        value matches Value::String(string) ==> value.placed() == string.placed(),
{
}

/// A text takes none of the arena, and is placed with less than eight bytes of padding.
pub proof fn law_texts_are_placed(text: &str, string: String)
    ensures
        text.required() == 0,
        text.placed() % 8 == 0,
        encode_utf8(text@).len() <= text.placed() < encode_utf8(text@).len() + 8,
        string.required() == 0,
        string.placed() % 8 == 0,
        encode_utf8(string@).len() <= string.placed() < encode_utf8(string@).len() + 8,
{
}

/// Without elements nothing is taken, and each element more takes a serialized value and what the
/// element itself takes.
pub proof fn law_each_element_takes_its_memory<T: JsSerialize>(
    slice: &[T],
    longer_slice: &[T],
    vector: Vec<T>,
    longer_vector: Vec<T>,
    item: T,
)
    ensures
        slice@.len() == 0 ==> slice.required() == 0 && slice.placed() == 0,
        vector@.len() == 0 ==> vector.required() == 0 && vector.placed() == 0,
        longer_slice@ == slice@.push(item) ==> {
            &&& longer_slice.required() == slice.required() + 16 + item.required()
            &&& longer_slice.placed() == slice.placed() + item.placed()
        },
        longer_vector@ == vector@.push(item) ==> {
            &&& longer_vector.required() == vector.required() + 16 + item.required()
            &&& longer_vector.placed() == vector.placed() + item.placed()
        },
{
    lemma_required_prefix(slice@.push(item), slice@, slice@.len());
    lemma_required_prefix(vector@.push(item), vector@, vector@.len());
    lemma_placed_prefix(slice@.push(item), slice@, slice@.len());
    lemma_placed_prefix(vector@.push(item), vector@, vector@.len());
}

/// What the elements of a concatenation require is what those of its two parts require.
pub proof fn law_required_of_concatenation<T: JsSerialize>(first: Seq<T>, second: Seq<T>)
    ensures
        items_required(first + second, (first + second).len()) == items_required(
            first,
            first.len(),
        ) + items_required(second, second.len()),
    decreases second.len(),
{
    let all = first + second;
    if second.len() == 0 {
        assert(all =~= first);
    } else {
        law_required_of_concatenation(first, second.drop_last());
        assert(first + second.drop_last() =~= all.drop_last());
        lemma_required_prefix(all, all.drop_last(), (all.len() - 1) as nat);
        lemma_required_prefix(second, second.drop_last(), (second.len() - 1) as nat);
    }
}

/// Sequences with the same elements require the same memory, in whatever order the elements are.
pub proof fn law_items_required_in_any_order<T: JsSerialize>(first: Seq<T>, second: Seq<T>)
    requires
        first.to_multiset() == second.to_multiset(),
    ensures
        first.len() == second.len(),
        items_required(first, first.len()) == items_required(second, second.len()),
    decreases first.len(),
{
    first.to_multiset_ensures();
    second.to_multiset_ensures();
    if first.len() > 0 {
        let n = first.len() - 1;
        assert(first.contains(first[n]));
        assert(second.to_multiset().count(first[n]) > 0);
        let i = choose|i: int| 0 <= i < second.len() && second[i] == first[n];
        law_items_required_in_any_order(first.remove(n), second.remove(i));
        lemma_required_of_rest(first, n);
        lemma_required_of_rest(second, i);
    }
}

/// What is required without one element, and for that element, is what is required.
proof fn lemma_required_of_rest<T: JsSerialize>(items: Seq<T>, i: int)
    requires
        0 <= i < items.len(),
    ensures
        items_required(items, items.len()) == items_required(
            items.remove(i),
            (items.len() - 1) as nat,
        ) + items[i].required(),
{
    let one = seq![items[i]];
    let front = items.take(i);
    let back = items.skip(i + 1);
    assert(items =~= front + one + back);
    assert(items.remove(i) =~= front + back);
    law_required_of_concatenation(front + one, back);
    law_required_of_concatenation(front, one);
    law_required_of_concatenation(front, back);
    assert(items_required(one, 0) == 0);
    assert(items_required(one, 1) == items[i].required());
}

/// What the first elements require does not depend on those after them.
proof fn lemma_required_prefix<T: JsSerialize>(first: Seq<T>, second: Seq<T>, n: nat)
    requires
        n <= first.len(),
        n <= second.len(),
        forall|j: int| 0 <= j < n ==> first[j] == second[j],
    ensures
        items_required(first, n) == items_required(second, n),
    decreases n,
{
    if n > 0 {
        lemma_required_prefix(first, second, (n - 1) as nat);
    }
}

/// What the first elements have placed does not depend on those after them.
proof fn lemma_placed_prefix<T: JsSerialize>(first: Seq<T>, second: Seq<T>, n: nat)
    requires
        n <= first.len(),
        n <= second.len(),
        forall|j: int| 0 <= j < n ==> first[j] == second[j],
    ensures
        items_placed(first, n) == items_placed(second, n),
    decreases n,
{
    if n > 0 {
        lemma_placed_prefix(first, second, (n - 1) as nat);
    }
}

/// Serializing a value takes exactly the memory that the value requires, and leaves alone what the
/// arena has handed out before, and what it keeps.
pub proof fn law_serialization_takes_what_is_required<T: ?Sized + JsSerialize>(
    value: &T,
    before: &PreallocatedArena,
    after: &PreallocatedArena,
)
    requires
        before.wf(),
        extends(before, after, value.required(), value.placed()),
    ensures
        after.index() == before.index() + value.required(),
        after.saved() == before.saved(),
        forall|a: int|
            before.base() <= a < before.next() ==> #[trigger] after.bytes()[a]
                == before.bytes()[a],
{
    before.lemma_wf();
}

/// An arena that was made with the memory that a value requires has no free space left when the
/// value is serialized, and it had enough.
pub proof fn law_required_memory_is_exact<T: ?Sized + JsSerialize>(
    value: &T,
    before: &PreallocatedArena,
    after: &PreallocatedArena,
)
    requires
        before.index() == 0,
        before.capacity() == value.required(),
        extends(before, after, value.required(), value.placed()),
    ensures
        value.required() <= before.free(),
        after.free() == 0,
{
}

/// One element more is written: the elements before it still stand for what they did.
proof fn lemma_element_step<T: JsSerialize>(
    items: Seq<T>,
    start: PreallocatedArena,
    reserved: PreallocatedArena,
    before: PreallocatedArena,
    between: PreallocatedArena,
    after: PreallocatedArena,
    pointer: u32,
    i: int,
    element: SerializedValue,
)
    requires
        0 <= i < items.len(),
        start.wf(),
        pointer == start.next(),
        extends(&start, &reserved, 16 * items.len(), 0),
        extends(
            &start,
            &before,
            16 * items.len() + items_required(items, i as nat),
            items_placed(items, i as nat),
        ),
        extends(&before, &between, items[i].required(), items[i].placed()),
        js_at(between.bytes(), fresh(&before, &between), element, items[i].js()),
        crate::arena::rewritten(&between, &after, pointer + 16 * i, element.image()),
        value_at(after.bytes(), pointer + 16 * i) == Some(element),
        forall|j: int|
            #![trigger element_at(before.bytes(), pointer, j)]
            0 <= j < i ==> {
                &&& element_at(before.bytes(), pointer, j) is Some
                &&& js_at(
                    before.bytes(),
                    fresh(&reserved, &before),
                    element_at(before.bytes(), pointer, j)->0,
                    items[j].js(),
                )
            },
    ensures
        extends(
            &start,
            &after,
            16 * items.len() + items_required(items, (i + 1) as nat),
            items_placed(items, (i + 1) as nat),
        ),
        forall|j: int|
            #![trigger element_at(after.bytes(), pointer, j)]
            0 <= j < i + 1 ==> {
                &&& element_at(after.bytes(), pointer, j) is Some
                &&& js_at(
                    after.bytes(),
                    fresh(&reserved, &after),
                    element_at(after.bytes(), pointer, j)->0,
                    items[j].js(),
                )
            },
{
    start.lemma_wf();
    before.lemma_wf();
    between.lemma_wf();
    lemma_extends_trans(
        &start,
        &before,
        &between,
        16 * items.len() + items_required(items, i as nat),
        items_placed(items, i as nat),
        items[i].required(),
        items[i].placed(),
    );
    assert forall|j: int|
        #![trigger element_at(after.bytes(), pointer, j)]
        0 <= j < i + 1 implies {
        &&& element_at(after.bytes(), pointer, j) is Some
        &&& js_at(
            after.bytes(),
            fresh(&reserved, &after),
            element_at(after.bytes(), pointer, j)->0,
            items[j].js(),
        )
    } by {
        if j < i {
            let at = pointer + 16 * j;
            assert(element_at(after.bytes(), pointer, j) == element_at(
                before.bytes(),
                pointer,
                j,
            )) by {
                reveal(value_at);
                assert forall|k: int| at <= k < at + 16 implies #[trigger] after.bytes()[k]
                    == before.bytes()[k] by {
                    assert(between.bytes()[k] == before.bytes()[k]);
                }
            }
            law_meaning_is_framed(
                before.bytes(),
                after.bytes(),
                fresh(&reserved, &before),
                fresh(&reserved, &after),
                element_at(before.bytes(), pointer, j)->0,
                items[j].js(),
            );
        } else {
            law_meaning_is_framed(
                between.bytes(),
                after.bytes(),
                fresh(&before, &between),
                fresh(&reserved, &after),
                element,
                items[j].js(),
            );
        }
    }
}

/// All elements are written: the array stands for what it should.
proof fn lemma_array_done<T: JsSerialize>(
    items: Seq<T>,
    start: PreallocatedArena,
    reserved: PreallocatedArena,
    after: PreallocatedArena,
    pointer: u32,
)
    requires
        start.wf(),
        pointer == start.next(),
        extends(&start, &reserved, 16 * items.len(), 0),
        extends(
            &start,
            &after,
            16 * items.len() + items_required(items, items.len()),
            items_placed(items, items.len()),
        ),
        forall|j: int|
            #![trigger element_at(after.bytes(), pointer, j)]
            0 <= j < items.len() ==> {
                &&& element_at(after.bytes(), pointer, j) is Some
                &&& js_at(
                    after.bytes(),
                    fresh(&reserved, &after),
                    element_at(after.bytes(), pointer, j)->0,
                    items[j].js(),
                )
            },
    ensures
        js_at(
            after.bytes(),
            fresh(&start, &after),
            (SerializedUntaggedArray { pointer, length: items.len() as u32 }).tagged(),
            JsValue::Array(items_js(items)),
        ),
{
    start.lemma_wf();
    after.lemma_wf();
    (SerializedUntaggedArray { pointer, length: items.len() as u32 }).law_data_round_trip();
    let region = fresh(&start, &after);
    assert forall|j: int|
        #![trigger element_at(after.bytes(), pointer, j)]
        #![trigger items_js(items)[j]]
        0 <= j < items.len() implies {
        &&& element_at(after.bytes(), pointer, j) is Some
        &&& js_at(
            after.bytes(),
            region,
            element_at(after.bytes(), pointer, j)->0,
            items_js(items)[j],
        )
    } by {
        law_meaning_is_framed(
            after.bytes(),
            after.bytes(),
            fresh(&reserved, &after),
            region,
            element_at(after.bytes(), pointer, j)->0,
            items[j].js(),
        );
    }
}

} // verus!
