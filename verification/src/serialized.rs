//! The form in which every value crosses the boundary.

use vstd::prelude::*;

use crate::float::Float64;
use crate::tag::Tag;
use crate::wire::{
    high, high_word, join, law_words_round_trip, low, low_word, push_u32, push_u64, stands_at,
    u32_at, u32_bytes, u64_at, u64_bytes, words,
};

verus! {

/// Where the tag stands in a serialized value, in bytes from its start.
pub const TAG_OFFSET: usize = 12;

/// A type with a fixed size in memory.
pub trait Layout: Sized {
    /// The size in bytes.
    spec fn spec_size() -> nat;

    /// The size in bytes.
    fn size_of() -> (size: usize)
        ensures
            size == Self::spec_size(),
    ;
}

/// A serialized value: twelve bytes of data, and the tag that says how to read them.
#[derive(Copy, Clone, PartialEq, Eq, Structural, Debug)]
pub struct SerializedValue {
    pub data_1: u64,
    pub data_2: u32,
    pub tag: Tag,
}

impl Default for SerializedValue {
    fn default() -> (value: Self)
        ensures
            value == (SerializedValue { data_1: 0, data_2: 0, tag: Tag::Undefined }),
    {
        SerializedValue { data_1: 0, data_2: 0, tag: Tag::default() }
    }
}

impl Layout for SerializedValue {
    open spec fn spec_size() -> nat {
        16
    }

    fn size_of() -> (size: usize) {
        16
    }
}

/// The serialized value that stands in `bytes` at index `at`, if its tag is one.
#[verifier::opaque]
pub open spec fn value_at(bytes: Seq<u8>, at: int) -> Option<SerializedValue> {
    match Tag::spec_from_code(bytes[at + TAG_OFFSET]) {
        Some(tag) => Some(
            SerializedValue { data_1: u64_at(bytes, at), data_2: u32_at(bytes, at + 8), tag },
        ),
        None => None,
    }
}

/// The key of an object that stands in `bytes` at index `at`.
#[verifier::opaque]
pub open spec fn key_at(bytes: Seq<u8>, at: int) -> SerializedUntaggedString {
    SerializedUntaggedString { pointer: u32_at(bytes, at), length: u32_at(bytes, at + 4) }
}

impl SerializedValue {
    /// The first data word.
    pub open spec fn word_0(self) -> u32 {
        low_word(self.data_1)
    }

    /// The second data word.
    pub open spec fn word_1(self) -> u32 {
        high_word(self.data_1)
    }

    /// The third data word.
    pub open spec fn word_2(self) -> u32 {
        self.data_2
    }

    /// The bytes of the value in memory; the three that follow the tag are padding.
    pub open spec fn image(self) -> Seq<u8> {
        u64_bytes(self.data_1) + u32_bytes(self.data_2) + seq![self.tag.spec_code(), 0, 0, 0]
    }

    /// The value with the given data words.
    pub open spec fn of_words(word_0: u32, word_1: u32, word_2: u32, tag: Tag) -> SerializedValue {
        SerializedValue { data_1: words(word_0, word_1), data_2: word_2, tag }
    }

    /// The bytes of the value in memory.
    pub fn to_bytes(&self) -> (bytes: Vec<u8>)
        ensures
            bytes@ == self.image(),
    {
        let mut bytes: Vec<u8> = Vec::new();
        push_u64(&mut bytes, self.data_1);
        push_u32(&mut bytes, self.data_2);
        bytes.push(self.tag.code());
        bytes.push(0);
        bytes.push(0);
        bytes.push(0);
        assert(bytes@ =~= self.image());
        bytes
    }
}

/// Reading a serialized value gives back the value that was written.
pub proof fn law_value_round_trip(bytes: Seq<u8>, at: int, value: SerializedValue)
    requires
        stands_at(bytes, at, value.image()),
    ensures
        value_at(bytes, at) == Some(value),
{
    reveal(value_at);
    let image = value.image();
    assert forall|i: int| 0 <= i < 8 implies #[trigger] bytes[at + i]
        == u64_bytes(value.data_1)[i] by {
        assert(bytes[at + i] == image[i]);
    }
    crate::wire::law_u64_round_trip(bytes, at, value.data_1);
    assert forall|i: int| 0 <= i < 4 implies #[trigger] bytes[at + 8 + i] == u32_bytes(
        value.data_2,
    )[i] by {
        assert(bytes[at + (8 + i)] == image[8 + i]);
    }
    crate::wire::law_u32_round_trip(bytes, at + 8, value.data_2);
    assert(bytes[at + 12] == image[12]);
}

/// Reading the key of an object gives back the key that was written.
pub proof fn law_key_round_trip(bytes: Seq<u8>, at: int, key: SerializedUntaggedString)
    requires
        stands_at(bytes, at, u32_bytes(key.pointer) + u32_bytes(key.length)),
    ensures
        key_at(bytes, at) == key,
{
    reveal(key_at);
    let image = u32_bytes(key.pointer) + u32_bytes(key.length);
    assert forall|i: int| 0 <= i < 4 implies #[trigger] bytes[at + i] == u32_bytes(
        key.pointer,
    )[i] by {
        assert(bytes[at + i] == image[i]);
    }
    crate::wire::law_u32_round_trip(bytes, at, key.pointer);
    assert forall|i: int| 0 <= i < 4 implies #[trigger] bytes[at + 4 + i] == u32_bytes(
        key.length,
    )[i] by {
        assert(bytes[at + (4 + i)] == image[4 + i]);
    }
    crate::wire::law_u32_round_trip(bytes, at + 4, key.length);
}

/// The data of one kind of value, without a tag. It is laid over the start of a
/// [`SerializedValue`].
pub trait Untagged: Layout {
    /// The tag of this kind of value.
    spec fn spec_tag() -> Tag;

    /// The bytes of the data in memory.
    spec fn data_image(self) -> Seq<u8>;

    /// The data laid over a value, and tagged.
    spec fn tagged(self) -> SerializedValue;

    /// The data that is laid over a value.
    spec fn untagged(value: SerializedValue) -> Self;

    /// Lays the data over a value, and tags it.
    fn into_value(self) -> (value: SerializedValue)
        ensures
            value == self.tagged(),
    ;

    /// Data that was laid over a value is read back from it, under its own tag.
    proof fn law_data_round_trip(self)
        ensures
            self.tagged().tag == Self::spec_tag(),
            Self::untagged(self.tagged()) == self,
    ;

    /// The data is the start of the tagged value in memory, and does not reach its tag.
    proof fn law_does_not_overlap_with_the_tag(self)
        ensures
            self.data_image().len() == Self::spec_size() <= TAG_OFFSET,
            self.tagged().image().take(Self::spec_size() as int) == self.data_image(),
    ;
}

/// JavaScript `undefined`: nothing but the tag.
#[derive(Copy, Clone, PartialEq, Eq, Debug)]
pub struct SerializedUntaggedUndefined;

impl Layout for SerializedUntaggedUndefined {
    open spec fn spec_size() -> nat {
        0
    }

    fn size_of() -> (size: usize) {
        0
    }
}

impl Untagged for SerializedUntaggedUndefined {
    open spec fn spec_tag() -> Tag {
        Tag::Undefined
    }

    open spec fn data_image(self) -> Seq<u8> {
        Seq::empty()
    }

    open spec fn tagged(self) -> SerializedValue {
        SerializedValue::of_words(0, 0, 0, Tag::Undefined)
    }

    open spec fn untagged(value: SerializedValue) -> Self {
        SerializedUntaggedUndefined
    }

    fn into_value(self) -> (value: SerializedValue) {
        SerializedValue { data_1: join(0, 0), data_2: 0, tag: Tag::Undefined }
    }

    proof fn law_data_round_trip(self) {
    }

    proof fn law_does_not_overlap_with_the_tag(self) {
        assert(self.tagged().image().take(0) =~= self.data_image());
    }
}

impl vstd::std_specs::convert::FromSpecImpl<SerializedUntaggedUndefined> for SerializedValue {
    open spec fn obeys_from_spec() -> bool {
        true
    }

    open spec fn from_spec(data: SerializedUntaggedUndefined) -> SerializedValue {
        data.tagged()
    }
}

impl From<SerializedUntaggedUndefined> for SerializedValue {
    fn from(data: SerializedUntaggedUndefined) -> (value: SerializedValue) {
        data.into_value()
    }
}

/// JavaScript `null`: nothing but the tag.
#[derive(Copy, Clone, PartialEq, Eq, Debug)]
pub struct SerializedUntaggedNull;

impl Layout for SerializedUntaggedNull {
    open spec fn spec_size() -> nat {
        0
    }

    fn size_of() -> (size: usize) {
        0
    }
}

impl Untagged for SerializedUntaggedNull {
    open spec fn spec_tag() -> Tag {
        Tag::Null
    }

    open spec fn data_image(self) -> Seq<u8> {
        Seq::empty()
    }

    open spec fn tagged(self) -> SerializedValue {
        SerializedValue::of_words(0, 0, 0, Tag::Null)
    }

    open spec fn untagged(value: SerializedValue) -> Self {
        SerializedUntaggedNull
    }

    fn into_value(self) -> (value: SerializedValue) {
        SerializedValue { data_1: join(0, 0), data_2: 0, tag: Tag::Null }
    }

    proof fn law_data_round_trip(self) {
    }

    proof fn law_does_not_overlap_with_the_tag(self) {
        assert(self.tagged().image().take(0) =~= self.data_image());
    }
}

impl vstd::std_specs::convert::FromSpecImpl<SerializedUntaggedNull> for SerializedValue {
    open spec fn obeys_from_spec() -> bool {
        true
    }

    open spec fn from_spec(data: SerializedUntaggedNull) -> SerializedValue {
        data.tagged()
    }
}

impl From<SerializedUntaggedNull> for SerializedValue {
    fn from(data: SerializedUntaggedNull) -> (value: SerializedValue) {
        data.into_value()
    }
}

/// A 32-bit integer.
#[derive(Copy, Clone, PartialEq, Eq, Debug)]
pub struct SerializedUntaggedI32 {
    pub value: i32,
}

impl Layout for SerializedUntaggedI32 {
    open spec fn spec_size() -> nat {
        4
    }

    fn size_of() -> (size: usize) {
        4
    }
}

impl Untagged for SerializedUntaggedI32 {
    open spec fn spec_tag() -> Tag {
        Tag::I32
    }

    open spec fn data_image(self) -> Seq<u8> {
        u32_bytes(self.value as u32)
    }

    open spec fn tagged(self) -> SerializedValue {
        SerializedValue::of_words(self.value as u32, 0, 0, Tag::I32)
    }

    open spec fn untagged(value: SerializedValue) -> Self {
        SerializedUntaggedI32 { value: value.word_0() as i32 }
    }

    fn into_value(self) -> (value: SerializedValue) {
        SerializedValue { data_1: join(self.value as u32, 0), data_2: 0, tag: Tag::I32 }
    }

    proof fn law_data_round_trip(self) {
        law_words_round_trip(0, self.value as u32, 0);
        let x = self.value;
        assert((x as u32) as i32 == x) by (bit_vector);
    }

    proof fn law_does_not_overlap_with_the_tag(self) {
        law_words_round_trip(0, self.value as u32, 0);
        assert(self.tagged().image().take(4) =~= self.data_image());
    }
}

impl vstd::std_specs::convert::FromSpecImpl<SerializedUntaggedI32> for SerializedValue {
    open spec fn obeys_from_spec() -> bool {
        true
    }

    open spec fn from_spec(data: SerializedUntaggedI32) -> SerializedValue {
        data.tagged()
    }
}

impl From<SerializedUntaggedI32> for SerializedValue {
    fn from(data: SerializedUntaggedI32) -> (value: SerializedValue) {
        data.into_value()
    }
}

/// A double.
#[derive(Copy, Clone, PartialEq, Eq, Debug)]
pub struct SerializedUntaggedF64 {
    pub value: Float64,
}

impl Layout for SerializedUntaggedF64 {
    open spec fn spec_size() -> nat {
        8
    }

    fn size_of() -> (size: usize) {
        8
    }
}

impl Untagged for SerializedUntaggedF64 {
    open spec fn spec_tag() -> Tag {
        Tag::F64
    }

    open spec fn data_image(self) -> Seq<u8> {
        u64_bytes(self.value.bits)
    }

    open spec fn tagged(self) -> SerializedValue {
        SerializedValue { data_1: self.value.bits, data_2: 0, tag: Tag::F64 }
    }

    open spec fn untagged(value: SerializedValue) -> Self {
        SerializedUntaggedF64 { value: Float64 { bits: value.data_1 } }
    }

    fn into_value(self) -> (value: SerializedValue) {
        SerializedValue { data_1: self.value.bits, data_2: 0, tag: Tag::F64 }
    }

    proof fn law_data_round_trip(self) {
    }

    proof fn law_does_not_overlap_with_the_tag(self) {
        assert(self.tagged().image().take(8) =~= self.data_image());
    }
}

impl vstd::std_specs::convert::FromSpecImpl<SerializedUntaggedF64> for SerializedValue {
    open spec fn obeys_from_spec() -> bool {
        true
    }

    open spec fn from_spec(data: SerializedUntaggedF64) -> SerializedValue {
        data.tagged()
    }
}

impl From<SerializedUntaggedF64> for SerializedValue {
    fn from(data: SerializedUntaggedF64) -> (value: SerializedValue) {
        data.into_value()
    }
}

/// `true`: nothing but the tag.
#[derive(Copy, Clone, PartialEq, Eq, Debug)]
pub struct SerializedUntaggedTrue;

impl Layout for SerializedUntaggedTrue {
    open spec fn spec_size() -> nat {
        0
    }

    fn size_of() -> (size: usize) {
        0
    }
}

impl Untagged for SerializedUntaggedTrue {
    open spec fn spec_tag() -> Tag {
        Tag::True
    }

    open spec fn data_image(self) -> Seq<u8> {
        Seq::empty()
    }

    open spec fn tagged(self) -> SerializedValue {
        SerializedValue::of_words(0, 0, 0, Tag::True)
    }

    open spec fn untagged(value: SerializedValue) -> Self {
        SerializedUntaggedTrue
    }

    fn into_value(self) -> (value: SerializedValue) {
        SerializedValue { data_1: join(0, 0), data_2: 0, tag: Tag::True }
    }

    proof fn law_data_round_trip(self) {
    }

    proof fn law_does_not_overlap_with_the_tag(self) {
        assert(self.tagged().image().take(0) =~= self.data_image());
    }
}

impl vstd::std_specs::convert::FromSpecImpl<SerializedUntaggedTrue> for SerializedValue {
    open spec fn obeys_from_spec() -> bool {
        true
    }

    open spec fn from_spec(data: SerializedUntaggedTrue) -> SerializedValue {
        data.tagged()
    }
}

impl From<SerializedUntaggedTrue> for SerializedValue {
    fn from(data: SerializedUntaggedTrue) -> (value: SerializedValue) {
        data.into_value()
    }
}

/// `false`: nothing but the tag.
#[derive(Copy, Clone, PartialEq, Eq, Debug)]
pub struct SerializedUntaggedFalse;

impl Layout for SerializedUntaggedFalse {
    open spec fn spec_size() -> nat {
        0
    }

    fn size_of() -> (size: usize) {
        0
    }
}

impl Untagged for SerializedUntaggedFalse {
    open spec fn spec_tag() -> Tag {
        Tag::False
    }

    open spec fn data_image(self) -> Seq<u8> {
        Seq::empty()
    }

    open spec fn tagged(self) -> SerializedValue {
        SerializedValue::of_words(0, 0, 0, Tag::False)
    }

    open spec fn untagged(value: SerializedValue) -> Self {
        SerializedUntaggedFalse
    }

    fn into_value(self) -> (value: SerializedValue) {
        SerializedValue { data_1: join(0, 0), data_2: 0, tag: Tag::False }
    }

    proof fn law_data_round_trip(self) {
    }

    proof fn law_does_not_overlap_with_the_tag(self) {
        assert(self.tagged().image().take(0) =~= self.data_image());
    }
}

impl vstd::std_specs::convert::FromSpecImpl<SerializedUntaggedFalse> for SerializedValue {
    open spec fn obeys_from_spec() -> bool {
        true
    }

    open spec fn from_spec(data: SerializedUntaggedFalse) -> SerializedValue {
        data.tagged()
    }
}

impl From<SerializedUntaggedFalse> for SerializedValue {
    fn from(data: SerializedUntaggedFalse) -> (value: SerializedValue) {
        data.into_value()
    }
}

/// An object: where its values and its keys stand, and how many there are.
#[derive(Copy, Clone, PartialEq, Eq, Debug)]
pub struct SerializedUntaggedObject {
    pub value_pointer: u32,
    pub length: u32,
    pub key_pointer: u32,
}

impl Layout for SerializedUntaggedObject {
    open spec fn spec_size() -> nat {
        12
    }

    fn size_of() -> (size: usize) {
        12
    }
}

impl Untagged for SerializedUntaggedObject {
    open spec fn spec_tag() -> Tag {
        Tag::Object
    }

    open spec fn data_image(self) -> Seq<u8> {
        u32_bytes(self.value_pointer) + u32_bytes(self.length) + u32_bytes(self.key_pointer)
    }

    open spec fn tagged(self) -> SerializedValue {
        SerializedValue::of_words(self.value_pointer, self.length, self.key_pointer, Tag::Object)
    }

    open spec fn untagged(value: SerializedValue) -> Self {
        SerializedUntaggedObject {
            value_pointer: value.word_0(),
            length: value.word_1(),
            key_pointer: value.word_2(),
        }
    }

    fn into_value(self) -> (value: SerializedValue) {
        SerializedValue {
            data_1: join(self.value_pointer, self.length),
            data_2: self.key_pointer,
            tag: Tag::Object,
        }
    }

    proof fn law_data_round_trip(self) {
        law_words_round_trip(0, self.value_pointer, self.length);
    }

    proof fn law_does_not_overlap_with_the_tag(self) {
        law_words_round_trip(0, self.value_pointer, self.length);
        assert(self.tagged().image().take(12) =~= self.data_image());
    }
}

impl vstd::std_specs::convert::FromSpecImpl<SerializedUntaggedObject> for SerializedValue {
    open spec fn obeys_from_spec() -> bool {
        true
    }

    open spec fn from_spec(data: SerializedUntaggedObject) -> SerializedValue {
        data.tagged()
    }
}

impl From<SerializedUntaggedObject> for SerializedValue {
    fn from(data: SerializedUntaggedObject) -> (value: SerializedValue) {
        data.into_value()
    }
}

/// A string: where its UTF-8 bytes stand, and how many there are.
#[derive(Copy, Clone, PartialEq, Eq, Debug)]
pub struct SerializedUntaggedString {
    pub pointer: u32,
    pub length: u32,
}

impl Layout for SerializedUntaggedString {
    open spec fn spec_size() -> nat {
        8
    }

    fn size_of() -> (size: usize) {
        8
    }
}

impl Untagged for SerializedUntaggedString {
    open spec fn spec_tag() -> Tag {
        Tag::Str
    }

    open spec fn data_image(self) -> Seq<u8> {
        u32_bytes(self.pointer) + u32_bytes(self.length)
    }

    open spec fn tagged(self) -> SerializedValue {
        SerializedValue::of_words(self.pointer, self.length, 0, Tag::Str)
    }

    open spec fn untagged(value: SerializedValue) -> Self {
        SerializedUntaggedString { pointer: value.word_0(), length: value.word_1() }
    }

    fn into_value(self) -> (value: SerializedValue) {
        SerializedValue { data_1: join(self.pointer, self.length), data_2: 0, tag: Tag::Str }
    }

    proof fn law_data_round_trip(self) {
        law_words_round_trip(0, self.pointer, self.length);
    }

    proof fn law_does_not_overlap_with_the_tag(self) {
        law_words_round_trip(0, self.pointer, self.length);
        assert(self.tagged().image().take(8) =~= self.data_image());
    }
}

impl vstd::std_specs::convert::FromSpecImpl<SerializedUntaggedString> for SerializedValue {
    open spec fn obeys_from_spec() -> bool {
        true
    }

    open spec fn from_spec(data: SerializedUntaggedString) -> SerializedValue {
        data.tagged()
    }
}

impl From<SerializedUntaggedString> for SerializedValue {
    fn from(data: SerializedUntaggedString) -> (value: SerializedValue) {
        data.into_value()
    }
}

/// An array: where its elements stand, and how many there are.
#[derive(Copy, Clone, PartialEq, Eq, Debug)]
pub struct SerializedUntaggedArray {
    pub pointer: u32,
    pub length: u32,
}

impl Layout for SerializedUntaggedArray {
    open spec fn spec_size() -> nat {
        8
    }

    fn size_of() -> (size: usize) {
        8
    }
}

impl Untagged for SerializedUntaggedArray {
    open spec fn spec_tag() -> Tag {
        Tag::Array
    }

    open spec fn data_image(self) -> Seq<u8> {
        u32_bytes(self.pointer) + u32_bytes(self.length)
    }

    open spec fn tagged(self) -> SerializedValue {
        SerializedValue::of_words(self.pointer, self.length, 0, Tag::Array)
    }

    open spec fn untagged(value: SerializedValue) -> Self {
        SerializedUntaggedArray { pointer: value.word_0(), length: value.word_1() }
    }

    fn into_value(self) -> (value: SerializedValue) {
        SerializedValue { data_1: join(self.pointer, self.length), data_2: 0, tag: Tag::Array }
    }

    proof fn law_data_round_trip(self) {
        law_words_round_trip(0, self.pointer, self.length);
    }

    proof fn law_does_not_overlap_with_the_tag(self) {
        law_words_round_trip(0, self.pointer, self.length);
        assert(self.tagged().image().take(8) =~= self.data_image());
    }
}

impl vstd::std_specs::convert::FromSpecImpl<SerializedUntaggedArray> for SerializedValue {
    open spec fn obeys_from_spec() -> bool {
        true
    }

    open spec fn from_spec(data: SerializedUntaggedArray) -> SerializedValue {
        data.tagged()
    }
}

impl From<SerializedUntaggedArray> for SerializedValue {
    fn from(data: SerializedUntaggedArray) -> (value: SerializedValue) {
        data.into_value()
    }
}

/// A symbol, by its number.
#[derive(Copy, Clone, PartialEq, Eq, Debug)]
pub struct SerializedUntaggedSymbol {
    pub id: i32,
}

impl Layout for SerializedUntaggedSymbol {
    open spec fn spec_size() -> nat {
        4
    }

    fn size_of() -> (size: usize) {
        4
    }
}

impl Untagged for SerializedUntaggedSymbol {
    open spec fn spec_tag() -> Tag {
        Tag::Symbol
    }

    open spec fn data_image(self) -> Seq<u8> {
        u32_bytes(self.id as u32)
    }

    open spec fn tagged(self) -> SerializedValue {
        SerializedValue::of_words(self.id as u32, 0, 0, Tag::Symbol)
    }

    open spec fn untagged(value: SerializedValue) -> Self {
        SerializedUntaggedSymbol { id: value.word_0() as i32 }
    }

    fn into_value(self) -> (value: SerializedValue) {
        SerializedValue { data_1: join(self.id as u32, 0), data_2: 0, tag: Tag::Symbol }
    }

    proof fn law_data_round_trip(self) {
        law_words_round_trip(0, self.id as u32, 0);
        let x = self.id;
        assert((x as u32) as i32 == x) by (bit_vector);
    }

    proof fn law_does_not_overlap_with_the_tag(self) {
        law_words_round_trip(0, self.id as u32, 0);
        assert(self.tagged().image().take(4) =~= self.data_image());
    }
}

impl vstd::std_specs::convert::FromSpecImpl<SerializedUntaggedSymbol> for SerializedValue {
    open spec fn obeys_from_spec() -> bool {
        true
    }

    open spec fn from_spec(data: SerializedUntaggedSymbol) -> SerializedValue {
        data.tagged()
    }
}

impl From<SerializedUntaggedSymbol> for SerializedValue {
    fn from(data: SerializedUntaggedSymbol) -> (value: SerializedValue) {
        data.into_value()
    }
}

/// An object kept on the JavaScript side, by its number.
#[derive(Copy, Clone, PartialEq, Eq, Debug)]
pub struct SerializedUntaggedReference {
    pub refid: i32,
}

impl Layout for SerializedUntaggedReference {
    open spec fn spec_size() -> nat {
        4
    }

    fn size_of() -> (size: usize) {
        4
    }
}

impl Untagged for SerializedUntaggedReference {
    open spec fn spec_tag() -> Tag {
        Tag::Reference
    }

    open spec fn data_image(self) -> Seq<u8> {
        u32_bytes(self.refid as u32)
    }

    open spec fn tagged(self) -> SerializedValue {
        SerializedValue::of_words(self.refid as u32, 0, 0, Tag::Reference)
    }

    open spec fn untagged(value: SerializedValue) -> Self {
        SerializedUntaggedReference { refid: value.word_0() as i32 }
    }

    fn into_value(self) -> (value: SerializedValue) {
        SerializedValue { data_1: join(self.refid as u32, 0), data_2: 0, tag: Tag::Reference }
    }

    proof fn law_data_round_trip(self) {
        law_words_round_trip(0, self.refid as u32, 0);
        let x = self.refid;
        assert((x as u32) as i32 == x) by (bit_vector);
    }

    proof fn law_does_not_overlap_with_the_tag(self) {
        law_words_round_trip(0, self.refid as u32, 0);
        assert(self.tagged().image().take(4) =~= self.data_image());
    }
}

impl vstd::std_specs::convert::FromSpecImpl<SerializedUntaggedReference> for SerializedValue {
    open spec fn obeys_from_spec() -> bool {
        true
    }

    open spec fn from_spec(data: SerializedUntaggedReference) -> SerializedValue {
        data.tagged()
    }
}

impl From<SerializedUntaggedReference> for SerializedValue {
    fn from(data: SerializedUntaggedReference) -> (value: SerializedValue) {
        data.into_value()
    }
}

/// A callback: its adapter, its closure, and its deallocator.
#[derive(Copy, Clone, PartialEq, Eq, Debug)]
pub struct SerializedUntaggedFunction {
    pub adapter_pointer: u32,
    pub pointer: u32,
    pub deallocator_pointer: u32,
}

impl Layout for SerializedUntaggedFunction {
    open spec fn spec_size() -> nat {
        12
    }

    fn size_of() -> (size: usize) {
        12
    }
}

impl Untagged for SerializedUntaggedFunction {
    open spec fn spec_tag() -> Tag {
        Tag::Function
    }

    open spec fn data_image(self) -> Seq<u8> {
        u32_bytes(self.adapter_pointer) + u32_bytes(self.pointer) + u32_bytes(
            self.deallocator_pointer,
        )
    }

    open spec fn tagged(self) -> SerializedValue {
        SerializedValue::of_words(
            self.adapter_pointer,
            self.pointer,
            self.deallocator_pointer,
            Tag::Function,
        )
    }

    open spec fn untagged(value: SerializedValue) -> Self {
        SerializedUntaggedFunction {
            adapter_pointer: value.word_0(),
            pointer: value.word_1(),
            deallocator_pointer: value.word_2(),
        }
    }

    fn into_value(self) -> (value: SerializedValue) {
        SerializedValue {
            data_1: join(self.adapter_pointer, self.pointer),
            data_2: self.deallocator_pointer,
            tag: Tag::Function,
        }
    }

    proof fn law_data_round_trip(self) {
        law_words_round_trip(0, self.adapter_pointer, self.pointer);
    }

    proof fn law_does_not_overlap_with_the_tag(self) {
        law_words_round_trip(0, self.adapter_pointer, self.pointer);
        assert(self.tagged().image().take(12) =~= self.data_image());
    }
}

impl vstd::std_specs::convert::FromSpecImpl<SerializedUntaggedFunction> for SerializedValue {
    open spec fn obeys_from_spec() -> bool {
        true
    }

    open spec fn from_spec(data: SerializedUntaggedFunction) -> SerializedValue {
        data.tagged()
    }
}

impl From<SerializedUntaggedFunction> for SerializedValue {
    fn from(data: SerializedUntaggedFunction) -> (value: SerializedValue) {
        data.into_value()
    }
}

/// A callback that can be called a single time.
#[derive(Copy, Clone, PartialEq, Eq, Debug)]
pub struct SerializedUntaggedFunctionOnce {
    pub adapter_pointer: u32,
    pub pointer: u32,
    pub deallocator_pointer: u32,
}

impl Layout for SerializedUntaggedFunctionOnce {
    open spec fn spec_size() -> nat {
        12
    }

    fn size_of() -> (size: usize) {
        12
    }
}

impl Untagged for SerializedUntaggedFunctionOnce {
    open spec fn spec_tag() -> Tag {
        Tag::FunctionOnce
    }

    open spec fn data_image(self) -> Seq<u8> {
        u32_bytes(self.adapter_pointer) + u32_bytes(self.pointer) + u32_bytes(
            self.deallocator_pointer,
        )
    }

    open spec fn tagged(self) -> SerializedValue {
        SerializedValue::of_words(
            self.adapter_pointer,
            self.pointer,
            self.deallocator_pointer,
            Tag::FunctionOnce,
        )
    }

    open spec fn untagged(value: SerializedValue) -> Self {
        SerializedUntaggedFunctionOnce {
            adapter_pointer: value.word_0(),
            pointer: value.word_1(),
            deallocator_pointer: value.word_2(),
        }
    }

    fn into_value(self) -> (value: SerializedValue) {
        SerializedValue {
            data_1: join(self.adapter_pointer, self.pointer),
            data_2: self.deallocator_pointer,
            tag: Tag::FunctionOnce,
        }
    }

    proof fn law_data_round_trip(self) {
        law_words_round_trip(0, self.adapter_pointer, self.pointer);
    }

    proof fn law_does_not_overlap_with_the_tag(self) {
        law_words_round_trip(0, self.adapter_pointer, self.pointer);
        assert(self.tagged().image().take(12) =~= self.data_image());
    }
}

impl vstd::std_specs::convert::FromSpecImpl<SerializedUntaggedFunctionOnce> for SerializedValue {
    open spec fn obeys_from_spec() -> bool {
        true
    }

    open spec fn from_spec(data: SerializedUntaggedFunctionOnce) -> SerializedValue {
        data.tagged()
    }
}

impl From<SerializedUntaggedFunctionOnce> for SerializedValue {
    fn from(data: SerializedUntaggedFunctionOnce) -> (value: SerializedValue) {
        data.into_value()
    }
}

/// A view of raw memory: where it starts, counted in elements, how many elements it shows, and the
/// number of their type.
#[derive(Copy, Clone, PartialEq, Eq, Debug)]
pub struct SerializedUntaggedUnsafeTypedArray {
    pub pointer: u32,
    pub length: u32,
    pub kind: u32,
}

impl Layout for SerializedUntaggedUnsafeTypedArray {
    open spec fn spec_size() -> nat {
        12
    }

    fn size_of() -> (size: usize) {
        12
    }
}

impl Untagged for SerializedUntaggedUnsafeTypedArray {
    open spec fn spec_tag() -> Tag {
        Tag::UnsafeTypedArray
    }

    open spec fn data_image(self) -> Seq<u8> {
        u32_bytes(self.pointer) + u32_bytes(self.length) + u32_bytes(self.kind)
    }

    open spec fn tagged(self) -> SerializedValue {
        SerializedValue::of_words(self.pointer, self.length, self.kind, Tag::UnsafeTypedArray)
    }

    open spec fn untagged(value: SerializedValue) -> Self {
        SerializedUntaggedUnsafeTypedArray {
            pointer: value.word_0(),
            length: value.word_1(),
            kind: value.word_2(),
        }
    }

    fn into_value(self) -> (value: SerializedValue) {
        SerializedValue {
            data_1: join(self.pointer, self.length),
            data_2: self.kind,
            tag: Tag::UnsafeTypedArray,
        }
    }

    proof fn law_data_round_trip(self) {
        law_words_round_trip(0, self.pointer, self.length);
    }

    proof fn law_does_not_overlap_with_the_tag(self) {
        law_words_round_trip(0, self.pointer, self.length);
        assert(self.tagged().image().take(12) =~= self.data_image());
    }
}

impl vstd::std_specs::convert::FromSpecImpl<SerializedUntaggedUnsafeTypedArray> for SerializedValue {
    open spec fn obeys_from_spec() -> bool {
        true
    }

    open spec fn from_spec(data: SerializedUntaggedUnsafeTypedArray) -> SerializedValue {
        data.tagged()
    }
}

impl From<SerializedUntaggedUnsafeTypedArray> for SerializedValue {
    fn from(data: SerializedUntaggedUnsafeTypedArray) -> (value: SerializedValue) {
        data.into_value()
    }
}

impl SerializedValue {
    /// The data of a value tagged as `undefined`.
    pub fn as_undefined(&self) -> (data: SerializedUntaggedUndefined)
        requires
            self.tag == Tag::Undefined,
        ensures
            data == SerializedUntaggedUndefined::untagged(*self),
    {
        SerializedUntaggedUndefined
    }

    /// The data of a value tagged as `null`.
    pub fn as_null(&self) -> (data: SerializedUntaggedNull)
        requires
            self.tag == Tag::Null,
        ensures
            data == SerializedUntaggedNull::untagged(*self),
    {
        SerializedUntaggedNull
    }

    /// The data of a value tagged [`Tag::I32`].
    pub fn as_i32(&self) -> (data: SerializedUntaggedI32)
        requires
            self.tag == Tag::I32,
        ensures
            data == SerializedUntaggedI32::untagged(*self),
    {
        SerializedUntaggedI32 { value: low(self.data_1) as i32 }
    }

    /// The data of a value tagged [`Tag::F64`].
    pub fn as_f64(&self) -> (data: SerializedUntaggedF64)
        requires
            self.tag == Tag::F64,
        ensures
            data == SerializedUntaggedF64::untagged(*self),
    {
        SerializedUntaggedF64 { value: Float64 { bits: self.data_1 } }
    }

    /// The data of a value tagged as `true`.
    pub fn as_true(&self) -> (data: SerializedUntaggedTrue)
        requires
            self.tag == Tag::True,
        ensures
            data == SerializedUntaggedTrue::untagged(*self),
    {
        SerializedUntaggedTrue
    }

    /// The data of a value tagged as `false`.
    pub fn as_false(&self) -> (data: SerializedUntaggedFalse)
        requires
            self.tag == Tag::False,
        ensures
            data == SerializedUntaggedFalse::untagged(*self),
    {
        SerializedUntaggedFalse
    }

    /// The data of a value tagged [`Tag::Object`].
    pub fn as_object(&self) -> (data: SerializedUntaggedObject)
        requires
            self.tag == Tag::Object,
        ensures
            data == SerializedUntaggedObject::untagged(*self),
    {
        SerializedUntaggedObject {
            value_pointer: low(self.data_1),
            length: high(self.data_1),
            key_pointer: self.data_2,
        }
    }

    /// The data of a value tagged [`Tag::Str`].
    pub fn as_string(&self) -> (data: SerializedUntaggedString)
        requires
            self.tag == Tag::Str,
        ensures
            data == SerializedUntaggedString::untagged(*self),
    {
        SerializedUntaggedString { pointer: low(self.data_1), length: high(self.data_1) }
    }

    /// The data of a value tagged [`Tag::Array`].
    pub fn as_array(&self) -> (data: SerializedUntaggedArray)
        requires
            self.tag == Tag::Array,
        ensures
            data == SerializedUntaggedArray::untagged(*self),
    {
        SerializedUntaggedArray { pointer: low(self.data_1), length: high(self.data_1) }
    }

    /// The data of a value tagged [`Tag::Symbol`].
    pub fn as_symbol(&self) -> (data: SerializedUntaggedSymbol)
        requires
            self.tag == Tag::Symbol,
        ensures
            data == SerializedUntaggedSymbol::untagged(*self),
    {
        SerializedUntaggedSymbol { id: low(self.data_1) as i32 }
    }

    /// The data of a value tagged [`Tag::Reference`].
    pub fn as_reference(&self) -> (data: SerializedUntaggedReference)
        requires
            self.tag == Tag::Reference,
        ensures
            data == SerializedUntaggedReference::untagged(*self),
    {
        SerializedUntaggedReference { refid: low(self.data_1) as i32 }
    }

    /// The data of a value tagged [`Tag::Function`].
    pub fn as_function(&self) -> (data: SerializedUntaggedFunction)
        requires
            self.tag == Tag::Function,
        ensures
            data == SerializedUntaggedFunction::untagged(*self),
    {
        SerializedUntaggedFunction {
            adapter_pointer: low(self.data_1),
            pointer: high(self.data_1),
            deallocator_pointer: self.data_2,
        }
    }

    /// The data of a value tagged [`Tag::FunctionOnce`].
    pub fn as_function_once(&self) -> (data: SerializedUntaggedFunctionOnce)
        requires
            self.tag == Tag::FunctionOnce,
        ensures
            data == SerializedUntaggedFunctionOnce::untagged(*self),
    {
        SerializedUntaggedFunctionOnce {
            adapter_pointer: low(self.data_1),
            pointer: high(self.data_1),
            deallocator_pointer: self.data_2,
        }
    }

    /// The data of a value tagged [`Tag::UnsafeTypedArray`].
    pub fn as_unsafe_typed_array(&self) -> (data: SerializedUntaggedUnsafeTypedArray)
        requires
            self.tag == Tag::UnsafeTypedArray,
        ensures
            data == SerializedUntaggedUnsafeTypedArray::untagged(*self),
    {
        SerializedUntaggedUnsafeTypedArray {
            pointer: low(self.data_1),
            length: high(self.data_1),
            kind: self.data_2,
        }
    }

}

} // verus!
