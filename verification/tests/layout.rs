//! How values lie in memory, and the parts of which serialization is made.

use js_serialization::arena::PreallocatedArena;
use js_serialization::call::reply;
use js_serialization::float::{Float32, Float64};
use js_serialization::key::{ObjectKey, OrderedKey};
use js_serialization::memory::{padded_size, total_size, LinearMemory};
use js_serialization::object::{
    object_into_js, object_memory_placed, object_memory_required, ObjectEntries,
};
use js_serialization::owned::{JsSerializeOwned, Newtype, NonFunctionTag};
use js_serialization::serialize::JsSerialize;
use js_serialization::serialized::{
    Layout, SerializedUntaggedArray, SerializedUntaggedF64, SerializedUntaggedFalse,
    SerializedUntaggedFunction, SerializedUntaggedFunctionOnce, SerializedUntaggedI32,
    SerializedUntaggedNull, SerializedUntaggedObject, SerializedUntaggedReference,
    SerializedUntaggedString, SerializedUntaggedSymbol, SerializedUntaggedTrue,
    SerializedUntaggedUndefined, SerializedUntaggedUnsafeTypedArray, SerializedValue, TAG_OFFSET,
};
use js_serialization::tag::Tag;
use js_serialization::typed_array::UnsafeTypedArray;
use js_serialization::value::{Number, Value};
use js_serialization::wire::{high, join, low, push_u16, push_u32, push_u64};

#[test]
fn test_serialized_value_size() {
    assert_eq!(std::mem::size_of::<SerializedValue>(), 16);
    assert_eq!(SerializedValue::size_of(), 16);
    assert_eq!(SerializedValue::default().to_bytes().len(), 16);
}

#[test]
fn undefined_does_not_overlap_with_the_tag() {
    let size = SerializedUntaggedUndefined::size_of();
    assert_eq!(size, 0);
    assert!(size <= TAG_OFFSET);
}

#[test]
fn null_does_not_overlap_with_the_tag() {
    let size = SerializedUntaggedNull::size_of();
    assert_eq!(size, 0);
    assert!(size <= TAG_OFFSET);
}

#[test]
fn i32_does_not_overlap_with_the_tag() {
    let size = SerializedUntaggedI32::size_of();
    assert_eq!(size, 4);
    assert!(size <= TAG_OFFSET);
}

#[test]
fn f64_does_not_overlap_with_the_tag() {
    let size = SerializedUntaggedF64::size_of();
    assert_eq!(size, 8);
    assert!(size <= TAG_OFFSET);
}

#[test]
fn true_does_not_overlap_with_the_tag() {
    let size = SerializedUntaggedTrue::size_of();
    assert_eq!(size, 0);
    assert!(size <= TAG_OFFSET);
}

#[test]
fn false_does_not_overlap_with_the_tag() {
    let size = SerializedUntaggedFalse::size_of();
    assert_eq!(size, 0);
    assert!(size <= TAG_OFFSET);
}

#[test]
fn object_does_not_overlap_with_the_tag() {
    let size = SerializedUntaggedObject::size_of();
    assert_eq!(size, 12);
    assert!(size <= TAG_OFFSET);
}

#[test]
fn string_does_not_overlap_with_the_tag() {
    let size = SerializedUntaggedString::size_of();
    assert_eq!(size, 8);
    assert!(size <= TAG_OFFSET);
}

#[test]
fn array_does_not_overlap_with_the_tag() {
    let size = SerializedUntaggedArray::size_of();
    assert_eq!(size, 8);
    assert!(size <= TAG_OFFSET);
}

#[test]
fn symbol_does_not_overlap_with_the_tag() {
    let size = SerializedUntaggedSymbol::size_of();
    assert_eq!(size, 4);
    assert!(size <= TAG_OFFSET);
}

#[test]
fn reference_does_not_overlap_with_the_tag() {
    let size = SerializedUntaggedReference::size_of();
    assert_eq!(size, 4);
    assert!(size <= TAG_OFFSET);
}

#[test]
fn function_does_not_overlap_with_the_tag() {
    let size = SerializedUntaggedFunction::size_of();
    assert_eq!(size, 12);
    assert!(size <= TAG_OFFSET);
}

#[test]
fn function_once_does_not_overlap_with_the_tag() {
    let size = SerializedUntaggedFunctionOnce::size_of();
    assert_eq!(size, 12);
    assert!(size <= TAG_OFFSET);
}

#[test]
fn unsafe_typed_array_does_not_overlap_with_the_tag() {
    let size = SerializedUntaggedUnsafeTypedArray::size_of();
    assert_eq!(size, 12);
    assert!(size <= TAG_OFFSET);
}

#[test]
fn a_tag_has_its_code() {
    let codes = [
        (Tag::Undefined, 0),
        (Tag::Null, 1),
        (Tag::I32, 2),
        (Tag::F64, 3),
        (Tag::Str, 4),
        (Tag::False, 5),
        (Tag::True, 6),
        (Tag::Array, 7),
        (Tag::Object, 8),
        (Tag::Reference, 9),
        (Tag::Function, 10),
        (Tag::FunctionOnce, 13),
        (Tag::UnsafeTypedArray, 14),
        (Tag::Symbol, 15),
    ];
    for (tag, code) in codes {
        assert_eq!(tag.code(), code);
        assert_eq!(Tag::from_code(code), Some(tag));
    }
    for code in [11, 12, 16, 255] {
        assert_eq!(Tag::from_code(code), None);
    }
    assert_eq!(Tag::default(), Tag::Undefined);
}

#[test]
fn the_default_value_is_undefined() {
    let value = SerializedValue::default();
    assert_eq!(value, SerializedValue { data_1: 0, data_2: 0, tag: Tag::Undefined });
    assert_eq!(value, SerializedValue::from(SerializedUntaggedUndefined));
}

#[test]
fn data_and_tag_lie_in_order() {
    let value = SerializedValue::from(SerializedUntaggedObject {
        value_pointer: 0x04030201,
        length: 0x08070605,
        key_pointer: 0x0c0b0a09,
    });
    assert_eq!(value.to_bytes(), vec![1, 2, 3, 4, 5, 6, 7, 8, 9, 10, 11, 12, 8, 0, 0, 0]);
    let value = SerializedValue::from(SerializedUntaggedF64 {
        value: Float64 { bits: 1.0f64.to_bits() },
    });
    assert_eq!(value.to_bytes(), vec![0, 0, 0, 0, 0, 0, 0xf0, 0x3f, 0, 0, 0, 0, 3, 0, 0, 0]);
    let value = SerializedValue::from(SerializedUntaggedI32 { value: -2 });
    assert_eq!(value.to_bytes()[0..4], [0xfe, 0xff, 0xff, 0xff]);
}

#[test]
fn untagged_data_is_read_back() {
    assert_eq!(
        SerializedValue::from(SerializedUntaggedUndefined).as_undefined(),
        SerializedUntaggedUndefined
    );
    assert_eq!(SerializedValue::from(SerializedUntaggedNull).as_null(), SerializedUntaggedNull);
    assert_eq!(SerializedValue::from(SerializedUntaggedTrue).as_true(), SerializedUntaggedTrue);
    assert_eq!(SerializedValue::from(SerializedUntaggedFalse).as_false(), SerializedUntaggedFalse);
    let data = SerializedUntaggedI32 { value: i32::MIN };
    assert_eq!(SerializedValue::from(data).as_i32(), data);
    let data = SerializedUntaggedF64 { value: Float64 { bits: 0x0123456789abcdef } };
    assert_eq!(SerializedValue::from(data).as_f64(), data);
    let data = SerializedUntaggedObject { value_pointer: 1, length: 2, key_pointer: u32::MAX };
    assert_eq!(SerializedValue::from(data).as_object(), data);
    let data = SerializedUntaggedString { pointer: u32::MAX, length: 3 };
    assert_eq!(SerializedValue::from(data).as_string(), data);
    let data = SerializedUntaggedArray { pointer: 5, length: u32::MAX };
    assert_eq!(SerializedValue::from(data).as_array(), data);
    let data = SerializedUntaggedSymbol { id: -1 };
    assert_eq!(SerializedValue::from(data).as_symbol(), data);
    let data = SerializedUntaggedReference { refid: i32::MAX };
    assert_eq!(SerializedValue::from(data).as_reference(), data);
    let data =
        SerializedUntaggedFunction { adapter_pointer: 1, pointer: 2, deallocator_pointer: 3 };
    assert_eq!(SerializedValue::from(data).as_function(), data);
    let data =
        SerializedUntaggedFunctionOnce { adapter_pointer: 4, pointer: 5, deallocator_pointer: 6 };
    assert_eq!(SerializedValue::from(data).as_function_once(), data);
    let data = SerializedUntaggedUnsafeTypedArray { pointer: 7, length: 8, kind: 6 };
    assert_eq!(SerializedValue::from(data).as_unsafe_typed_array(), data);
}

#[test]
fn deserializing_needs_no_memory_for_plain_values() {
    let mut memory = LinearMemory::new();
    let symbol = SerializedValue::from(SerializedUntaggedSymbol { id: 3 });
    assert!(matches!(symbol.deserialize(&mut memory), Value::Symbol(symbol) if symbol.0 == 3));
    let reference = SerializedUntaggedReference { refid: 9 };
    assert_eq!(reference.deserialize().as_raw(), 9);
    assert_eq!(SerializedValue::default().deserialize(&mut memory), Value::Undefined);
    assert_eq!(memory.size(), 8);
}

#[test]
fn a_string_is_decoded() {
    let mut memory = LinearMemory::new();
    let pointer = memory.allocate(6);
    memory.write(pointer, &[0xf0, 0x9f, 0x98, 0x90, 0x21]);
    let string = SerializedUntaggedString { pointer, length: 5 };
    assert_eq!(string.deserialize(&mut memory), "😐!");
    assert!(format!("{:?}", memory).contains("blocks: {}"));
}

#[test]
fn memory_grows_in_steps_of_eight() {
    let mut memory = LinearMemory::new();
    assert_eq!(memory.size(), 8);
    assert_eq!(memory.allocate(3), 8);
    assert_eq!(memory.size(), 16);
    assert_eq!(memory.allocate(0), 16);
    assert_eq!(memory.size(), 16);
    assert_eq!(memory.place(&[1, 2, 3, 4, 5, 6, 7, 8, 9]), 16);
    assert_eq!(memory.size(), 32);
    assert_eq!(memory.read(16, 9), vec![1, 2, 3, 4, 5, 6, 7, 8, 9]);
    memory.write(18, &[0, 255]);
    assert_eq!(memory.read(16, 5), vec![1, 2, 0, 255, 5]);
    assert_eq!(memory.read_u32(16), 0xff000201);
    memory.deallocate(8, 3);
    assert!(format!("{:?}", memory).contains("blocks: {}"));
}

#[test]
fn a_value_is_read_back_from_memory() {
    let mut memory = LinearMemory::new();
    let value = SerializedValue::from(SerializedUntaggedString { pointer: 0xfffffff0, length: 7 });
    let at = memory.place(&value.to_bytes());
    assert_eq!(memory.read_value(at), Some(value));
    assert_eq!(memory.read_key(at), value.as_string());
    memory.write(at + 12, &[11]);
    assert_eq!(memory.read_value(at), None);
}

#[test]
fn an_arena_hands_its_buffer_out_in_order() {
    let mut arena = PreallocatedArena::new(40);
    assert!(arena.has_free_space());
    let keys = arena.reserve::<SerializedUntaggedString>(1);
    let values = arena.reserve::<SerializedValue>(2);
    assert_eq!((keys, values), (8, 16));
    assert!(!arena.has_free_space());
    arena.assert_no_free_space_left();
    assert_eq!(arena.reserve::<SerializedValue>(0), 48);
    arena.write_key(keys, SerializedUntaggedString { pointer: 1, length: 2 });
    arena.write_value(values + 16, SerializedValue::from(SerializedUntaggedTrue));
    assert_eq!(arena.memory().read_key(8), SerializedUntaggedString { pointer: 1, length: 2 });
    assert_eq!(arena.memory().read_value(32).unwrap().tag, Tag::True);
    assert!(format!("{:?}", arena.into_memory()).contains("blocks: {}"));
}

#[test]
fn an_arena_keeps_what_is_saved() {
    let mut arena = PreallocatedArena::new(0);
    assert_eq!(*arena.save(Value::Bool(true)), Value::Bool(true));
    assert_eq!(*arena.save(Value::String("Dog".to_string())), Value::String("Dog".to_string()));
    assert_eq!(*arena.saved_at(0), Value::Bool(true));
    assert_eq!(*arena.saved_at(1), Value::String("Dog".to_string()));
    assert!(!arena.has_free_space());
    arena.assert_no_free_space_left();
}

#[test]
fn entries_keep_distinct_keys() {
    let mut entries = ObjectEntries::new();
    entries.insert("a".to_string(), 1);
    entries.insert("b".to_string(), 2);
    entries.insert("a".to_string(), 3);
    assert_eq!(entries.as_slice(), [("a".to_string(), 3), ("b".to_string(), 2)]);
}

#[test]
fn the_keys_of_an_object_stand_before_its_values() {
    let entries = [("k".to_string(), true), ("key".to_string(), false)];
    assert_eq!(object_memory_required(&entries), 48);
    let mut arena = PreallocatedArena::new(48);
    let object = object_into_js(&entries, &mut arena).as_object();
    assert!(!arena.has_free_space());
    arena.assert_no_free_space_left();
    assert_eq!((object.key_pointer, object.value_pointer, object.length), (8, 24, 2));
    let memory = arena.memory();
    let key = memory.read_key(16);
    assert_eq!(memory.read(key.pointer, key.length), b"key".to_vec());
    assert_eq!(memory.read_value(24).unwrap().tag, Tag::True);
    assert_eq!(memory.read_value(40).unwrap().tag, Tag::False);
}

#[test]
fn a_reply_is_read_while_it_is_there() {
    let mut memory = LinearMemory::new();
    let result: Newtype<(NonFunctionTag, ()), Vec<i32>> = Newtype::new(vec![4, 5]);
    let read = reply(&mut memory, result, |shared: &LinearMemory, value: &SerializedValue| {
        let array = value.as_array();
        let second = shared.read_value(array.pointer + 16).unwrap();
        (array.length, second.as_i32().value)
    });
    assert_eq!(read, (2, 5));
    assert_eq!(memory.size(), 8);
    assert!(format!("{:?}", memory).contains("blocks: {}"));
}

#[test]
fn doubles_are_made_of_integers_exactly() {
    for x in [0u32, 1, 2, 3, 255, 256, 65535, 16777217, 0x12345678, 0x80000000, u32::MAX] {
        assert_eq!(Float64::from_u32(x).bits, (x as f64).to_bits());
    }
    assert_eq!(Float64::from_u32(1).bits, 0x3ff0000000000000);
}

#[test]
fn doubles_are_made_of_singles_exactly() {
    let singles = [
        0.0f32,
        -0.0,
        1.0,
        -1.5,
        0.1,
        f32::MAX,
        f32::MIN_POSITIVE,
        f32::from_bits(1),
        f32::from_bits(0x007fffff),
        f32::from_bits(0x80000003),
        f32::INFINITY,
        f32::NEG_INFINITY,
    ];
    for x in singles {
        assert_eq!(Float64::from_f32(Float32 { bits: x.to_bits() }).bits, (x as f64).to_bits());
    }
    let nan = Float64::from_f32(Float32 { bits: f32::NAN.to_bits() });
    assert!(f64::from_bits(nan.bits).is_nan());
}

#[test]
fn numbers_are_written_low_byte_first() {
    let mut out: Vec<u8> = Vec::new();
    push_u16(&mut out, 0x0201);
    push_u32(&mut out, 0x06050403);
    push_u64(&mut out, 0x0e0d0c0b0a090807);
    assert_eq!(out, vec![1, 2, 3, 4, 5, 6, 7, 8, 9, 10, 11, 12, 13, 14]);
    assert_eq!(join(0x89abcdef, 0x01234567), 0x0123456789abcdef);
    assert_eq!(low(0x0123456789abcdef), 0x89abcdef);
    assert_eq!(high(0x0123456789abcdef), 0x01234567);
}

#[test]
fn keys_with_the_same_text_have_an_entry_each() {
    let entries = [("k".to_string(), 1), ("k".to_string(), 2)];
    let mut arena = PreallocatedArena::new(object_memory_required(&entries));
    let object = object_into_js(&entries, &mut arena).as_object();
    assert_eq!(object.length, 2);
    let memory = arena.memory();
    for i in 0..2 {
        let key = memory.read_key(object.key_pointer + 8 * i);
        assert_eq!(memory.read(key.pointer, key.length), b"k".to_vec());
        let value = memory.read_value(object.value_pointer + 16 * i).unwrap();
        assert_eq!(value.as_i32().value, i as i32 + 1);
    }
}

#[test]
fn keys_are_ordered_by_their_bytes() {
    let texts = ["", "Z", "a", "ab", "b", "\u{7f}", "\u{80}", "\u{ffff}", "\u{10000}"];
    for (i, first) in texts.iter().enumerate() {
        for (j, second) in texts.iter().enumerate() {
            assert_eq!(first.is_before(second), i < j);
            assert_eq!(first.is_same(second), i == j);
            let first = first.to_string();
            let second = second.to_string();
            assert_eq!(first.is_before(&second), i < j);
            assert_eq!(first.is_before(&second), first < second);
            assert_eq!(first.is_same(&second), i == j);
        }
    }
    assert_eq!("Dog".to_string().as_text(), "Dog");
    assert_eq!("Dog".as_text(), "Dog");
}

#[test]
fn objects_take_the_same_memory_in_any_order() {
    let first = [("a".to_string(), vec![1, 2]), ("b".to_string(), vec![])];
    let second = [("b".to_string(), vec![]), ("a".to_string(), vec![1, 2])];
    assert_eq!(object_memory_required(&first), 80);
    assert_eq!(object_memory_required(&second), 80);
    assert_eq!(object_memory_placed(&first), Some(16));
}

#[test]
fn sizes_are_padded_and_added() {
    assert_eq!(padded_size(0), Some(0));
    assert_eq!(padded_size(1), Some(8));
    assert_eq!(padded_size(8), Some(8));
    assert_eq!(padded_size(0xffff_fff8), Some(0xffff_fff8));
    assert_eq!(padded_size(0xffff_fff9), None);
    assert_eq!(total_size(Some(8), Some(16)), Some(24));
    assert_eq!(total_size(Some(0xffff_fff0), Some(16)), None);
    assert_eq!(total_size(None, Some(0)), None);
}

#[test]
fn placed_memory_is_counted() {
    assert_eq!("".to_string()._memory_placed(), Some(0));
    assert_eq!("Dog"._memory_placed(), Some(8));
    assert_eq!("12345678é"._memory_placed(), Some(16));
    assert_eq!(true._memory_placed(), Some(0));
    assert_eq!(Some("Dog")._memory_placed(), Some(8));
    assert_eq!(vec!["a", "", "b"]._memory_placed(), Some(16));
    assert_eq!(Value::String("Dog".to_string())._memory_placed(), Some(8));
    assert_eq!(Value::Null._memory_placed(), Some(0));
    assert_eq!(UnsafeTypedArray::new(&[1u16, 2, 3, 4, 5])._memory_placed(), Some(16));
    let newtype: Newtype<(NonFunctionTag, ()), &str> = Newtype::new("Dog");
    assert_eq!(newtype.memory_placed_owned(), Some(8));
    let memory = LinearMemory::new();
    let mut arena = PreallocatedArena::new_in(memory, 48);
    vec!["a", "", "b"]._into_js(&mut arena);
    assert_eq!(arena.memory().size(), 8 + 48 + 16);
    assert_eq!(arena.into_memory().size(), 8);
}

#[test]
fn memory_can_be_given_back() {
    let mut memory = LinearMemory::new();
    let block = memory.allocate(5);
    memory.write(block, &[1, 2, 3, 4, 5]);
    memory.place(&[6, 7]);
    memory.shrink(16);
    assert_eq!(memory.size(), 16);
    assert_eq!(memory.read(block, 5), vec![1, 2, 3, 4, 5]);
    assert_eq!(memory.place(&[8]), 16);
}

#[test]
fn an_option_leaves_no_trace() {
    let mut arena = PreallocatedArena::new(0);
    let inner = Number::I32(5)._into_js(&mut arena);
    assert_eq!(Some(Number::I32(5))._into_js(&mut arena), inner);
    assert_eq!((&Number::I32(5))._into_js(&mut arena), inner);
    let mut newtype: Option<Newtype<(NonFunctionTag, ()), Number>> =
        Some(Newtype::new(Number::I32(5)));
    assert_eq!(JsSerializeOwned::into_js_owned(&mut newtype, &mut arena), inner);
    let none: Option<bool> = None;
    assert_eq!(Some(none)._into_js(&mut arena).tag, Tag::Null);
    assert_eq!(none._into_js(&mut arena).tag, Tag::Null);
}

#[test]
fn a_text_gets_the_end_of_the_memory() {
    let mut arena = PreallocatedArena::new(0);
    let first = Value::String("Dog".to_string())._into_js(&mut arena).as_string();
    assert_eq!((first.pointer, first.length), (8, 3));
    let empty = Value::String("".to_string())._into_js(&mut arena).as_string();
    assert_eq!((empty.pointer, empty.length), (16, 0));
}

#[test]
fn several_values_fill_an_arena_exactly() {
    let numbers = vec![1, 2];
    let nested = vec![vec![true], vec![]];
    let required =
        numbers._memory_required() + nested._memory_required() + "Dog"._memory_required();
    assert_eq!(required, 32 + 48);
    let mut arena = PreallocatedArena::new(required);
    let first = numbers._into_js(&mut arena).as_array();
    assert!(arena.has_free_space());
    nested._into_js(&mut arena);
    "Dog"._into_js(&mut arena);
    assert!(!arena.has_free_space());
    arena.assert_no_free_space_left();
    assert_eq!(arena.memory().read_value(first.pointer + 16).unwrap().as_i32().value, 2);
}

#[test]
fn a_concatenation_takes_what_its_parts_take() {
    let first = vec![vec![1, 2], vec![]];
    let second = vec![vec![3]];
    let both = vec![vec![1, 2], vec![], vec![3]];
    let reversed = vec![vec![3], vec![], vec![1, 2]];
    assert_eq!(first._memory_required(), 64);
    assert_eq!(second._memory_required(), 32);
    assert_eq!(both._memory_required(), 96);
    assert_eq!(reversed._memory_required(), 96);
}
