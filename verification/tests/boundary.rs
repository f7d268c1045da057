//! Values that cross the boundary, with a small JavaScript world on the other side.

use std::cell::Cell;
use std::collections::{BTreeMap, HashMap};
use std::rc::Rc;

use js_serialization::arena::PreallocatedArena;
use js_serialization::call::{funcall_adapter, funcall_adapter_once, CallError};
use js_serialization::deserialize::{deserialize_array, ArrayDeserializer};
use js_serialization::deserialize_object::{deserialize_object, ObjectDeserializer};
use js_serialization::float::{Float32, Float64};
use js_serialization::memory::LinearMemory;
use js_serialization::object::{ObjectEntries, SortedEntries};
use js_serialization::owned::{
    Callback, FunctionTag, JsSerializeOwned, Newtype, NonFunctionTag, Once,
};
use js_serialization::serialize::JsSerialize;
use js_serialization::serialized::{
    SerializedUntaggedArray, SerializedUntaggedF64, SerializedUntaggedFalse, SerializedUntaggedI32,
    SerializedUntaggedNull, SerializedUntaggedObject, SerializedUntaggedReference,
    SerializedUntaggedString, SerializedUntaggedSymbol, SerializedUntaggedTrue,
    SerializedUntaggedUndefined, SerializedValue,
};
use js_serialization::tag::Tag;
use js_serialization::typed_array::{TypedElement, UnsafeTypedArray};
use js_serialization::value::{Null, Number, Reference, Symbol, Undefined, Value};

/// A JavaScript value as JavaScript sees it.
#[derive(Clone, Debug, PartialEq)]
enum Js {
    Undefined,
    Null,
    Bool(bool),
    Number(f64),
    Str(String),
    Symbol(i32),
    Object(i32),
}

/// An object that lives on the JavaScript side.
#[derive(Clone, Debug, PartialEq)]
enum Object {
    Array(Vec<Js>),
    Plain(Vec<(String, Js)>),
    Date,
    Arguments,
    Error,
    Function(u32),
    Typed(&'static str, Vec<f64>),
}

/// A Rust closure that JavaScript can call.
type Many = Box<dyn FnMut(&mut LinearMemory, u32) -> Result<Js, CallError>>;
type Single = Box<dyn FnOnce(&mut LinearMemory, u32) -> Result<Js, CallError>>;

struct World {
    memory: LinearMemory,
    objects: Vec<Object>,
    symbols: i32,
    many: HashMap<u32, Many>,
    single: HashMap<u32, Single>,
    next_closure: u32,
}

fn string_at(memory: &LinearMemory, string: &SerializedUntaggedString) -> String {
    String::from_utf8(memory.read(string.pointer, string.length)).unwrap()
}

/// Reads a value that points at nothing but text.
fn plain_js(memory: &LinearMemory, value: &SerializedValue) -> Js {
    match value.tag {
        Tag::Undefined => Js::Undefined,
        Tag::Null => Js::Null,
        Tag::I32 => Js::Number(value.as_i32().value as f64),
        Tag::F64 => Js::Number(f64::from_bits(value.as_f64().value.bits)),
        Tag::Str => Js::Str(string_at(memory, &value.as_string())),
        Tag::False => Js::Bool(false),
        Tag::True => Js::Bool(true),
        Tag::Symbol => Js::Symbol(value.as_symbol().id),
        Tag::Reference => Js::Object(value.as_reference().refid),
        _ => panic!("not a plain value: {:?}", value),
    }
}

impl World {
    fn new() -> World {
        World {
            memory: LinearMemory::new(),
            objects: Vec::new(),
            symbols: 0,
            many: HashMap::new(),
            single: HashMap::new(),
            next_closure: 1000,
        }
    }

    fn create(&mut self, object: Object) -> Js {
        self.objects.push(object);
        Js::Object(self.objects.len() as i32)
    }

    fn object(&self, refid: i32) -> &Object {
        &self.objects[refid as usize - 1]
    }

    fn symbol(&mut self) -> Js {
        self.symbols += 1;
        Js::Symbol(self.symbols)
    }

    /// What JavaScript makes of a serialized value.
    fn to_js(&mut self, memory: &LinearMemory, value: &SerializedValue) -> Js {
        match value.tag {
            Tag::Array => {
                let array = value.as_array();
                let mut items: Vec<Js> = Vec::new();
                for i in 0..array.length {
                    let item = memory.read_value(array.pointer + 16 * i).unwrap();
                    items.push(self.to_js(memory, &item));
                }
                self.create(Object::Array(items))
            }
            Tag::Object => {
                let object = value.as_object();
                let mut properties: Vec<(String, Js)> = Vec::new();
                for i in 0..object.length {
                    let key = memory.read_key(object.key_pointer + 8 * i);
                    let item = memory.read_value(object.value_pointer + 16 * i).unwrap();
                    let key = string_at(memory, &key);
                    let item = self.to_js(memory, &item);
                    properties.push((key, item));
                }
                self.create(Object::Plain(properties))
            }
            Tag::Function => self.create(Object::Function(value.as_function().pointer)),
            Tag::FunctionOnce => self.create(Object::Function(value.as_function_once().pointer)),
            Tag::UnsafeTypedArray => {
                let array = value.as_unsafe_typed_array();
                let (name, size) = match array.kind {
                    0 => ("Uint8Array", 1),
                    1 => ("Int8Array", 1),
                    2 => ("Uint16Array", 2),
                    3 => ("Int16Array", 2),
                    4 => ("Uint32Array", 4),
                    5 => ("Int32Array", 4),
                    6 => ("Float32Array", 4),
                    _ => ("Float64Array", 8),
                };
                let mut items: Vec<f64> = Vec::new();
                for i in 0..array.length {
                    let b = memory.read((array.pointer + i) * size, size);
                    items.push(match array.kind {
                        0 => b[0] as f64,
                        1 => b[0] as i8 as f64,
                        2 => u16::from_le_bytes([b[0], b[1]]) as f64,
                        3 => i16::from_le_bytes([b[0], b[1]]) as f64,
                        4 => u32::from_le_bytes([b[0], b[1], b[2], b[3]]) as f64,
                        5 => i32::from_le_bytes([b[0], b[1], b[2], b[3]]) as f64,
                        6 => f32::from_le_bytes([b[0], b[1], b[2], b[3]]) as f64,
                        _ => f64::from_le_bytes([b[0], b[1], b[2], b[3], b[4], b[5], b[6], b[7]]),
                    });
                }
                self.create(Object::Typed(name, items))
            }
            _ => plain_js(memory, value),
        }
    }

    /// Puts text into memory as JavaScript does: with a byte to spare, and not at all if empty.
    fn write_text(&mut self, text: &str) -> SerializedUntaggedString {
        if text.is_empty() {
            return SerializedUntaggedString { pointer: 0, length: 0 };
        }
        let pointer = self.memory.allocate(text.len() + 1);
        self.memory.write(pointer, text.as_bytes());
        SerializedUntaggedString { pointer, length: text.len() as u32 }
    }

    /// What JavaScript hands to Rust for a value.
    fn from_js(&mut self, js: &Js) -> SerializedValue {
        match js {
            Js::Undefined => SerializedValue::from(SerializedUntaggedUndefined),
            Js::Null => SerializedValue::from(SerializedUntaggedNull),
            Js::Bool(true) => SerializedValue::from(SerializedUntaggedTrue),
            Js::Bool(false) => SerializedValue::from(SerializedUntaggedFalse),
            Js::Number(x) => {
                if *x == *x as i32 as f64 {
                    SerializedValue::from(SerializedUntaggedI32 { value: *x as i32 })
                } else {
                    SerializedValue::from(SerializedUntaggedF64 {
                        value: Float64 { bits: x.to_bits() },
                    })
                }
            }
            Js::Str(text) => SerializedValue::from(self.write_text(text)),
            Js::Symbol(id) => SerializedValue::from(SerializedUntaggedSymbol { id: *id }),
            Js::Object(refid) => {
                SerializedValue::from(SerializedUntaggedReference { refid: *refid })
            }
        }
    }

    fn serialize_items(&mut self, items: &[Js]) -> SerializedUntaggedArray {
        let pointer = self.memory.allocate(16 * items.len());
        for (i, item) in items.iter().enumerate() {
            let value = self.from_js(item);
            self.memory.write(pointer + 16 * i as u32, &value.to_bytes());
        }
        SerializedUntaggedArray { pointer, length: items.len() as u32 }
    }

    fn serialize_array(&mut self, refid: i32) -> SerializedValue {
        match self.object(refid).clone() {
            Object::Array(items) => SerializedValue::from(self.serialize_items(&items)),
            other => panic!("not an array: {:?}", other),
        }
    }

    fn serialize_object(&mut self, refid: i32) -> SerializedValue {
        match self.object(refid).clone() {
            Object::Plain(properties) => {
                let length = properties.len();
                let key_pointer = self.memory.allocate(8 * length);
                let value_pointer = self.memory.allocate(16 * length);
                for (i, (key, item)) in properties.iter().enumerate() {
                    let key = self.write_text(key);
                    let at = key_pointer + 8 * i as u32;
                    self.memory.write(at, &key.pointer.to_le_bytes());
                    self.memory.write(at + 4, &key.length.to_le_bytes());
                    let value = self.from_js(item);
                    self.memory.write(value_pointer + 16 * i as u32, &value.to_bytes());
                }
                SerializedValue::from(SerializedUntaggedObject {
                    key_pointer,
                    value_pointer,
                    length: length as u32,
                })
            }
            other => panic!("not a plain object: {:?}", other),
        }
    }

    /// Hands a Rust value to JavaScript.
    fn pass<T: ?Sized + JsSerialize>(&mut self, value: &T) -> Js {
        let memory = std::mem::replace(&mut self.memory, LinearMemory::new());
        let mut arena = PreallocatedArena::new_in(memory, value._memory_required());
        let serialized = value._into_js(&mut arena);
        assert!(!arena.has_free_space());
        arena.assert_no_free_space_left();
        let js = self.to_js(arena.memory(), &serialized);
        self.memory = arena.into_memory();
        js
    }

    /// Hands a Rust value to JavaScript for good.
    fn pass_owned<T: JsSerializeOwned>(&mut self, value: T) -> Js {
        let memory = std::mem::replace(&mut self.memory, LinearMemory::new());
        let mut arena = PreallocatedArena::new_in(memory, value.memory_required_owned());
        let mut value = Some(value);
        let serialized = T::into_js_owned(&mut value, &mut arena);
        assert!(!arena.has_free_space());
        arena.assert_no_free_space_left();
        let js = self.to_js(arena.memory(), &serialized);
        self.memory = arena.into_memory();
        js
    }

    /// Hands a JavaScript value to Rust.
    fn take(&mut self, js: &Js) -> Value {
        let serialized = self.from_js(js);
        serialized.deserialize(&mut self.memory)
    }

    /// Hands a Rust value to JavaScript, which hands it back.
    fn returned<T: ?Sized + JsSerialize>(&mut self, value: &T) -> Value {
        let js = self.pass(value);
        self.take(&js)
    }

    fn add_closure(&mut self, closure: Many) -> Callback {
        self.next_closure += 8;
        self.many.insert(self.next_closure, closure);
        Callback { adapter_pointer: 1, pointer: self.next_closure, deallocator_pointer: 2 }
    }

    fn add_single(&mut self, closure: Single) -> Callback {
        self.next_closure += 8;
        self.single.insert(self.next_closure, closure);
        Callback { adapter_pointer: 3, pointer: self.next_closure, deallocator_pointer: 4 }
    }

    /// Calls a function object, if its closure is still there.
    fn call(&mut self, function: &Js, arguments: &[Js]) -> Option<Result<Js, CallError>> {
        let pointer = match function {
            Js::Object(refid) => match self.object(*refid) {
                Object::Function(pointer) => *pointer,
                other => panic!("not a function: {:?}", other),
            },
            other => panic!("not a function: {:?}", other),
        };
        let array = self.serialize_items(arguments);
        let raw = self.memory.allocate(16);
        self.memory.write(raw, &array.pointer.to_le_bytes());
        self.memory.write(raw + 4, &array.length.to_le_bytes());
        if let Some(mut closure) = self.many.remove(&pointer) {
            let result = closure(&mut self.memory, raw);
            self.many.insert(pointer, closure);
            Some(result)
        } else if let Some(closure) = self.single.remove(&pointer) {
            Some(closure(&mut self.memory, raw))
        } else {
            None
        }
    }

    /// Lets go of a function object's closure, if it is still there.
    fn drop_function(&mut self, function: &Js) {
        if let Js::Object(refid) = function {
            if let Object::Function(pointer) = self.object(*refid) {
                let pointer = *pointer;
                self.many.remove(&pointer);
                self.single.remove(&pointer);
            }
        }
    }

    /// Hands a closure that can be called a single time to JavaScript.
    fn pass_single(&mut self) -> Js {
        let closure = |_: ()| -> Plain<()> { Newtype::new(()) };
        let callback = self.add_single(Box::new(move |memory: &mut LinearMemory, raw: u32| {
            funcall_adapter_once(closure, memory, raw, plain_js)
        }));
        self.pass_owned(Newtype::<(FunctionTag, ()), Once<Callback>>::new(Once(callback)))
    }

    fn kind_name(&self, js: &Js) -> &'static str {
        match js {
            Js::Str(_) => "[object String]",
            Js::Object(refid) => match self.object(*refid) {
                Object::Array(_) => "[object Array]",
                Object::Plain(_) => "[object Object]",
                Object::Date => "[object Date]",
                Object::Arguments => "[object Arguments]",
                Object::Error => "[object Error]",
                Object::Function(_) => "[object Function]",
                Object::Typed(_, _) => "[object Typed]",
            },
            _ => "[object Other]",
        }
    }

    fn is_array(&self, value: &Value) -> bool {
        match value {
            Value::Reference(reference) => {
                matches!(self.object(reference.as_raw()), Object::Array(_))
            }
            _ => false,
        }
    }

    fn is_object(&self, value: &Value) -> bool {
        match value {
            Value::Reference(reference) => {
                matches!(self.object(reference.as_raw()), Object::Plain(_))
            }
            _ => false,
        }
    }

    fn property(&self, object: &Js, name: &str) -> Js {
        match object {
            Js::Object(refid) => match self.object(*refid) {
                Object::Plain(properties) => properties
                    .iter()
                    .find(|(key, _)| key == name)
                    .map(|(_, value)| value.clone())
                    .unwrap_or(Js::Undefined),
                other => panic!("not a plain object: {:?}", other),
            },
            other => panic!("not an object: {:?}", other),
        }
    }

    fn key_count(&self, object: &Js) -> usize {
        match object {
            Js::Object(refid) => match self.object(*refid) {
                Object::Plain(properties) => properties.len(),
                other => panic!("not a plain object: {:?}", other),
            },
            other => panic!("not an object: {:?}", other),
        }
    }

    fn items(&self, array: &Js) -> Vec<Js> {
        match array {
            Js::Object(refid) => match self.object(*refid) {
                Object::Array(items) => items.clone(),
                other => panic!("not an array: {:?}", other),
            },
            other => panic!("not an object: {:?}", other),
        }
    }

    /// The sum of Rust numbers, computed in JavaScript.
    fn sum(&mut self, numbers: &[i32]) -> Value {
        let mut total = 0.0;
        for number in numbers {
            match self.pass(number) {
                Js::Number(x) => total += x,
                other => panic!("not a number: {:?}", other),
            }
        }
        self.take(&Js::Number(total))
    }
}

fn integer(x: i32) -> Value {
    Value::Number(Number::I32(x))
}

fn float(x: f64) -> Value {
    Value::Number(Number::F64(Float64 { bits: x.to_bits() }))
}

fn text(x: &str) -> Value {
    Value::String(x.to_string())
}

fn one_and_two(world: &mut World) -> Js {
    world.create(Object::Plain(vec![
        ("one".to_string(), Js::Number(1.0)),
        ("two".to_string(), Js::Number(2.0)),
    ]))
}

fn all_properties(world: &mut World, object: &Js) -> Vec<(String, Value)> {
    let refid = match object {
        Js::Object(refid) => *refid,
        other => panic!("not an object: {:?}", other),
    };
    let serialized = world.serialize_object(refid);
    deserialize_object(&mut world.memory, &serialized, |deserializer: &mut ObjectDeserializer| {
        let mut properties: Vec<(String, Value)> = Vec::new();
        let (lower, upper) = deserializer.size_hint();
        assert_eq!(upper, Some(lower));
        while let Some(property) = deserializer.next() {
            properties.push(property);
            assert_eq!(deserializer.size_hint().0, lower - properties.len());
        }
        assert!(deserializer.next().is_none());
        properties
    })
}

fn all_elements(world: &mut World, array: &Js) -> Vec<Value> {
    let refid = match array {
        Js::Object(refid) => *refid,
        other => panic!("not an object: {:?}", other),
    };
    let serialized = world.serialize_array(refid);
    deserialize_array(&mut world.memory, &serialized, |deserializer: &mut ArrayDeserializer| {
        let mut elements: Vec<Value> = Vec::new();
        let (lower, upper) = deserializer.size_hint();
        assert_eq!(upper, Some(lower));
        while let Some(element) = deserializer.next() {
            elements.push(element);
            assert_eq!(deserializer.size_hint(), (lower - elements.len(), Some(lower - elements.len())));
        }
        assert!(deserializer.next().is_none());
        elements
    })
}

type Plain<T> = Newtype<(NonFunctionTag, ()), T>;

// Values that JavaScript makes.

#[test]
fn i32() {
    let mut world = World::new();
    assert_eq!(world.take(&Js::Number(100.0)), integer(100));
}

#[test]
fn f64() {
    let mut world = World::new();
    assert_eq!(world.take(&Js::Number(100.5)), float(100.5));
}

#[test]
fn bool_true() {
    let mut world = World::new();
    assert_eq!(world.take(&Js::Bool(true)), Value::Bool(true));
}

#[test]
fn bool_false() {
    let mut world = World::new();
    assert_eq!(world.take(&Js::Bool(false)), Value::Bool(false));
}

#[test]
fn undefined() {
    let mut world = World::new();
    assert_eq!(world.take(&Js::Undefined), Value::Undefined);
}

#[test]
fn null() {
    let mut world = World::new();
    assert_eq!(world.take(&Js::Null), Value::Null);
}

#[test]
fn string() {
    let mut world = World::new();
    assert_eq!(world.take(&Js::Str("Dog".to_string())), text("Dog"));
}

#[test]
fn empty_string() {
    let mut world = World::new();
    assert_eq!(world.take(&Js::Str("".to_string())), text(""));
}

#[test]
fn symbol() {
    let mut world = World::new();
    let symbol = world.symbol();
    let value = world.take(&symbol);
    assert!(matches!(value, Value::Symbol(_)));
}

#[test]
fn array() {
    let mut world = World::new();
    let array = world.create(Object::Array(vec![Js::Number(1.0), Js::Number(2.0)]));
    let value = world.take(&array);
    assert_eq!(world.is_array(&value), true);
}

#[test]
fn object() {
    let mut world = World::new();
    let object = one_and_two(&mut world);
    let value = world.take(&object);
    assert_eq!(world.is_object(&value), true);
}

#[test]
fn object_into_btreemap() {
    let mut world = World::new();
    let object = one_and_two(&mut world);
    let object: BTreeMap<String, Value> = all_properties(&mut world, &object).into_iter().collect();
    let expected: BTreeMap<String, Value> =
        vec![("one".to_string(), integer(1)), ("two".to_string(), integer(2))].into_iter().collect();
    assert_eq!(object, expected);
}

#[test]
fn object_into_hashmap() {
    let mut world = World::new();
    let object = one_and_two(&mut world);
    let object: HashMap<String, Value> = all_properties(&mut world, &object).into_iter().collect();
    let expected: HashMap<String, Value> =
        vec![("one".to_string(), integer(1)), ("two".to_string(), integer(2))].into_iter().collect();
    assert_eq!(object, expected);
}

#[test]
fn array_into_vector() {
    let mut world = World::new();
    let array = world.create(Object::Array(vec![Js::Str("one".to_string()), Js::Number(1.0)]));
    let array = all_elements(&mut world, &array);
    assert_eq!(array, vec![text("one"), integer(1)]);
}

#[test]
fn reference() {
    let mut world = World::new();
    let date = world.create(Object::Date);
    assert_eq!(matches!(world.take(&date), Value::Reference(_)), true);
}

#[test]
fn arguments() {
    let mut world = World::new();
    let arguments = world.create(Object::Arguments);
    let value = world.take(&arguments);
    assert_eq!(world.is_array(&value), false);
}

#[test]
fn function() {
    let mut world = World::new();
    let value = Rc::new(Cell::new(0));
    let fn_value = value.clone();
    let mut closure = move |_: ()| -> Plain<()> {
        fn_value.set(1);
        Newtype::new(())
    };
    let callback = world.add_closure(Box::new(move |memory: &mut LinearMemory, raw: u32| {
        funcall_adapter(&mut closure, memory, raw, plain_js)
    }));
    let function = world.pass_owned(Newtype::<(FunctionTag, ()), Callback>::new(callback));
    assert_eq!(world.call(&function, &[]).unwrap().unwrap(), Js::Undefined);
    world.drop_function(&function);
    assert_eq!(value.get(), 1);
}

#[test]
fn function_returning_bool() {
    let mut world = World::new();
    let mut closure = |_: ()| -> Plain<bool> { Newtype::new(true) };
    let callback = world.add_closure(Box::new(move |memory: &mut LinearMemory, raw: u32| {
        funcall_adapter(&mut closure, memory, raw, plain_js)
    }));
    let function = world.pass_owned(Newtype::<(FunctionTag, ()), Callback>::new(callback));
    let result = world.call(&function, &[]).unwrap().unwrap();
    world.drop_function(&function);
    assert_eq!(world.take(&result), Value::Bool(true));
}

#[test]
fn function_with_single_bool_argument() {
    let mut world = World::new();
    let value = Rc::new(Cell::new(false));
    let fn_value = value.clone();
    let mut closure = move |arguments: (bool, ())| -> Plain<()> {
        fn_value.set(arguments.0);
        Newtype::new(())
    };
    let callback = world.add_closure(Box::new(move |memory: &mut LinearMemory, raw: u32| {
        funcall_adapter(&mut closure, memory, raw, plain_js)
    }));
    let function = world.pass_owned(Newtype::<(FunctionTag, (bool, ())), Callback>::new(callback));
    assert!(world.call(&function, &[Js::Bool(true)]).unwrap().is_ok());
    world.drop_function(&function);
    assert_eq!(value.get(), true);
}

#[test]
fn function_inside_an_option() {
    let mut world = World::new();
    let value = Rc::new(Cell::new(0));
    let fn_value = value.clone();
    let mut closure = move |_: ()| -> Plain<()> {
        fn_value.set(1);
        Newtype::new(())
    };
    let callback = world.add_closure(Box::new(move |memory: &mut LinearMemory, raw: u32| {
        funcall_adapter(&mut closure, memory, raw, plain_js)
    }));
    let function =
        world.pass_owned(Newtype::<(FunctionTag, ()), Option<Callback>>::new(Some(callback)));
    assert!(world.call(&function, &[]).unwrap().is_ok());
    world.drop_function(&function);
    assert_eq!(value.get(), 1);
}

#[test]
fn function_inside_an_empty_option() {
    let mut world = World::new();
    let js = world.pass_owned(Newtype::<(FunctionTag, ()), Option<Callback>>::new(None));
    let result = world.take(&Js::Bool(js == Js::Null));
    assert_eq!(result, Value::Bool(true));
}

#[test]
fn function_once() {
    let mut world = World::new();
    let suffix = "!".to_owned();
    let closure = move |arguments: (String, ())| -> Plain<String> {
        Newtype::new(arguments.0 + suffix.as_str())
    };
    let callback = world.add_single(Box::new(move |memory: &mut LinearMemory, raw: u32| {
        funcall_adapter_once(closure, memory, raw, plain_js)
    }));
    let function =
        world.pass_owned(Newtype::<(FunctionTag, (String, ())), Once<Callback>>::new(Once(callback)));
    let result = world.call(&function, &[Js::Str("Dog".to_string())]).unwrap().unwrap();
    assert_eq!(world.take(&result), text("Dog!"));
}

#[test]
fn function_once_cannot_be_called_twice() {
    let mut world = World::new();
    let callback = world.pass_single();
    assert!(world.call(&callback, &[]).is_some());
    let gone = world.call(&callback, &[]).is_none();
    assert_eq!(world.take(&Js::Bool(gone)), Value::Bool(true));
}

#[test]
fn function_once_cannot_be_called_after_being_dropped() {
    let mut world = World::new();
    let callback = world.pass_single();
    world.drop_function(&callback);
    let gone = world.call(&callback, &[]).is_none();
    assert_eq!(world.take(&Js::Bool(gone)), Value::Bool(true));
}

#[test]
fn function_once_calling_drop_after_being_called_does_not_do_anything() {
    let mut world = World::new();
    let callback = world.pass_single();
    assert!(world.call(&callback, &[]).is_some());
    world.drop_function(&callback);
    assert_eq!(world.take(&Js::Bool(true)), Value::Bool(true));
}

#[test]
fn function_once_calling_drop_twice_does_not_do_anything() {
    let mut world = World::new();
    let callback = world.pass_single();
    world.drop_function(&callback);
    world.drop_function(&callback);
    assert_eq!(world.take(&Js::Bool(true)), Value::Bool(true));
}

// Values that Rust makes.

fn number_and_string() -> ObjectEntries<String, Value> {
    let mut object = ObjectEntries::new();
    object.insert("number".to_string(), integer(123));
    object.insert("string".to_string(), text("Hello!"));
    object
}

fn entries_of(map: &HashMap<String, Value>) -> ObjectEntries<String, Value> {
    let mut object = ObjectEntries::new();
    for (key, value) in map {
        object.insert(key.clone(), value.clone());
    }
    object
}

fn sorted_entries_of(map: &BTreeMap<String, Value>) -> SortedEntries<String, Value> {
    let mut object = SortedEntries::new();
    for (key, value) in map {
        object.insert(key.clone(), value.clone());
    }
    object
}

#[test]
fn object_from_btreemap() {
    let mut world = World::new();
    let map: BTreeMap<String, Value> =
        vec![("number".to_string(), integer(123)), ("string".to_string(), text("Hello!"))]
            .into_iter()
            .collect();
    let object = world.pass(&sorted_entries_of(&map));
    let result = world.property(&object, "number") == Js::Number(123.0)
        && world.property(&object, "string") == Js::Str("Hello!".to_string())
        && world.key_count(&object) == 2;
    assert_eq!(world.take(&Js::Bool(result)), Value::Bool(true));
}

#[test]
fn object_from_borrowed_btreemap() {
    let mut world = World::new();
    let map: BTreeMap<String, Value> = vec![("number".to_string(), integer(123))].into_iter().collect();
    let entries = sorted_entries_of(&map);
    let object = world.pass(&&entries);
    let result = world.property(&object, "number") == Js::Number(123.0)
        && world.key_count(&object) == 1;
    assert_eq!(world.take(&Js::Bool(result)), Value::Bool(true));
}

#[test]
fn object_from_btreemap_with_convertible_key_and_value() {
    let mut world = World::new();
    let key: std::borrow::Cow<str> = "number".into();
    let mut entries: SortedEntries<&str, i32> = SortedEntries::new();
    entries.insert(key.as_ref(), 123);
    let object = world.pass(&entries);
    let result = world.property(&object, "number") == Js::Number(123.0)
        && world.key_count(&object) == 1;
    assert_eq!(world.take(&Js::Bool(result)), Value::Bool(true));
}

#[test]
fn object_from_hashmap() {
    let mut world = World::new();
    let map: HashMap<String, Value> =
        vec![("number".to_string(), integer(123)), ("string".to_string(), text("Hello!"))]
            .into_iter()
            .collect();
    let object = world.pass(&entries_of(&map));
    let result = world.property(&object, "number") == Js::Number(123.0)
        && world.property(&object, "string") == Js::Str("Hello!".to_string())
        && world.key_count(&object) == 2;
    assert_eq!(world.take(&Js::Bool(result)), Value::Bool(true));
}

#[test]
fn vector_of_strings() {
    let mut world = World::new();
    let vec: Vec<String> = vec!["one".to_string(), "two".to_string()];
    let array = world.pass(&vec);
    let items = world.items(&array);
    let result = items[0] == Js::Str("one".to_string())
        && items[1] == Js::Str("two".to_string())
        && items.len() == 2;
    assert_eq!(world.take(&Js::Bool(result)), Value::Bool(true));
}

#[test]
fn multiple() {
    let mut world = World::new();
    let date = world.create(Object::Date);
    let reference = match world.take(&date) {
        Value::Reference(reference) => reference,
        other => panic!("not a reference: {:?}", other),
    };
    let mut closure = |_: ()| -> Plain<()> { Newtype::new(()) };
    let callback = world.add_closure(Box::new(move |memory: &mut LinearMemory, raw: u32| {
        funcall_adapter(&mut closure, memory, raw, plain_js)
    }));
    let callback = world.pass_owned(Newtype::<(FunctionTag, ()), Callback>::new(callback));
    let reference = world.pass(&reference);
    let string = world.pass("Hello!");
    let result = world.kind_name(&callback) == "[object Function]"
        && world.kind_name(&reference) == "[object Date]"
        && world.kind_name(&string) == "[object String]";
    assert_eq!(world.take(&Js::Bool(result)), Value::Bool(true));
}

#[test]
fn serialize_0() {
    let mut world = World::new();
    assert_eq!(world.take(&Js::Number(0.0)), integer(0));
}

#[test]
fn serialize_1() {
    assert_eq!(World::new().sum(&[1]), integer(1));
}

#[test]
fn serialize_2() {
    assert_eq!(World::new().sum(&[1, 2]), integer(1 + 2));
}

#[test]
fn serialize_3() {
    assert_eq!(World::new().sum(&[1, 2, 3]), integer(1 + 2 + 3));
}

#[test]
fn serialize_4() {
    assert_eq!(World::new().sum(&[1, 2, 3, 4]), integer(1 + 2 + 3 + 4));
}

#[test]
fn serialize_5() {
    assert_eq!(World::new().sum(&[1, 2, 3, 4, 5]), integer(1 + 2 + 3 + 4 + 5));
}

#[test]
fn serialize_6() {
    assert_eq!(World::new().sum(&[1, 2, 3, 4, 5, 6]), integer(1 + 2 + 3 + 4 + 5 + 6));
}

#[test]
fn serialize_7() {
    assert_eq!(World::new().sum(&[1, 2, 3, 4, 5, 6, 7]), integer(1 + 2 + 3 + 4 + 5 + 6 + 7));
}

#[test]
fn serialize_8() {
    assert_eq!(World::new().sum(&[1, 2, 3, 4, 5, 6, 7, 8]), integer(1 + 2 + 3 + 4 + 5 + 6 + 7 + 8));
}

#[test]
fn serialize_9() {
    assert_eq!(World::new().sum(&[1, 2, 3, 4, 5, 6, 7, 8, 9]), integer(1 + 2 + 3 + 4 + 5 + 6 + 7 + 8 + 9));
}

#[test]
fn serialize_10() {
    assert_eq!(World::new().sum(&[1, 2, 3, 4, 5, 6, 7, 8, 9, 10]), integer(1 + 2 + 3 + 4 + 5 + 6 + 7 + 8 + 9 + 10));
}

#[test]
fn serialize_11() {
    assert_eq!(World::new().sum(&[1, 2, 3, 4, 5, 6, 7, 8, 9, 10, 11]), integer(1 + 2 + 3 + 4 + 5 + 6 + 7 + 8 + 9 + 10 + 11));
}

#[test]
fn serialize_12() {
    assert_eq!(World::new().sum(&[1, 2, 3, 4, 5, 6, 7, 8, 9, 10, 11, 12]), integer(1 + 2 + 3 + 4 + 5 + 6 + 7 + 8 + 9 + 10 + 11 + 12));
}

#[test]
fn serialize_13() {
    assert_eq!(World::new().sum(&[1, 2, 3, 4, 5, 6, 7, 8, 9, 10, 11, 12, 13]), integer(1 + 2 + 3 + 4 + 5 + 6 + 7 + 8 + 9 + 10 + 11 + 12 + 13));
}

#[test]
fn serialize_14() {
    assert_eq!(World::new().sum(&[1, 2, 3, 4, 5, 6, 7, 8, 9, 10, 11, 12, 13, 14]), integer(1 + 2 + 3 + 4 + 5 + 6 + 7 + 8 + 9 + 10 + 11 + 12 + 13 + 14));
}

#[test]
fn serialize_15() {
    assert_eq!(World::new().sum(&[1, 2, 3, 4, 5, 6, 7, 8, 9, 10, 11, 12, 13, 14, 15]), integer(1 + 2 + 3 + 4 + 5 + 6 + 7 + 8 + 9 + 10 + 11 + 12 + 13 + 14 + 15));
}

#[test]
fn serialize_16() {
    assert_eq!(World::new().sum(&[1, 2, 3, 4, 5, 6, 7, 8, 9, 10, 11, 12, 13, 14, 15, 16]), integer(1 + 2 + 3 + 4 + 5 + 6 + 7 + 8 + 9 + 10 + 11 + 12 + 13 + 14 + 15 + 16));
}

#[test]
fn interpolated_args_are_converted_at_the_start() {
    let mut world = World::new();
    let mut string = "1".to_owned();
    let captured = world.pass(&string);
    string.replace_range(0..1, "2");
    assert_eq!(string, "2");
    assert_eq!(world.take(&captured), text("1"));
}

fn shown<T: TypedElement>(slice: &[T]) -> (&'static str, f64, usize) {
    let mut world = World::new();
    let js = world.pass(&UnsafeTypedArray::new(slice));
    match js {
        Js::Object(refid) => match world.object(refid) {
            Object::Typed(name, items) => {
                (*name, items[0] + items[1] + items[2], items.len())
            }
            other => panic!("not a typed array: {:?}", other),
        },
        other => panic!("not an object: {:?}", other),
    }
}

#[test]
fn test_unsafe_typed_array_u8() {
    assert_eq!(shown(&[1u8, 2, 3]), ("Uint8Array", 6.0, 3));
}

#[test]
fn test_unsafe_typed_array_i8() {
    assert_eq!(shown(&[1i8, 2, 3]), ("Int8Array", 6.0, 3));
}

#[test]
fn test_unsafe_typed_array_u16() {
    assert_eq!(shown(&[1u16, 2, 3]), ("Uint16Array", 6.0, 3));
}

#[test]
fn test_unsafe_typed_array_i16() {
    assert_eq!(shown(&[1i16, 2, 3]), ("Int16Array", 6.0, 3));
}

#[test]
fn test_unsafe_typed_array_u32() {
    assert_eq!(shown(&[1u32, 2, 3]), ("Uint32Array", 6.0, 3));
}

#[test]
fn test_unsafe_typed_array_i32() {
    assert_eq!(shown(&[1i32, 2, 3]), ("Int32Array", 6.0, 3));
}

#[test]
fn test_unsafe_typed_array_f32() {
    let slice = [1.0f32, 2.0, 3.0].map(|x| Float32 { bits: x.to_bits() });
    assert_eq!(shown(&slice), ("Float32Array", 6.0, 3));
}

#[test]
fn test_unsafe_typed_array_f64() {
    let slice = [1.0f64, 2.0, 3.0].map(|x| Float64 { bits: x.to_bits() });
    assert_eq!(shown(&slice), ("Float64Array", 6.0, 3));
}

#[test]
fn typed_arrays_show_negative_numbers() {
    assert_eq!(shown(&[-1i8, -2, -128]), ("Int8Array", -131.0, 3));
    assert_eq!(shown(&[-1i16, -2, -32768]), ("Int16Array", -32771.0, 3));
    assert_eq!(shown(&[-1i32, -2, i32::MIN]), ("Int32Array", -2147483651.0, 3));
}

// Values that Rust makes and JavaScript hands back.

#[test]
fn serialization_i32() {
    assert_eq!(World::new().returned(&100), integer(100));
}

#[test]
fn serialization_f64() {
    let value = Float64 { bits: 100.5f64.to_bits() };
    assert_eq!(World::new().returned(&value), float(100.5));
}

#[test]
fn serialization_bool_true() {
    assert_eq!(World::new().returned(&true), Value::Bool(true));
}

#[test]
fn serialization_bool_false() {
    assert_eq!(World::new().returned(&false), Value::Bool(false));
}

#[test]
fn serialization_undefined() {
    assert_eq!(World::new().returned(&Undefined), Value::Undefined);
}

#[test]
fn serialization_null() {
    assert_eq!(World::new().returned(&Null), Value::Null);
}

#[test]
fn serialization_string() {
    assert_eq!(World::new().returned("Dog"), text("Dog"));
}

#[test]
fn serialization_empty_string() {
    assert_eq!(World::new().returned(""), text(""));
}

#[test]
fn string_with_non_bmp_character() {
    let mut world = World::new();
    let joined = match world.pass("😐") {
        Js::Str(text) => text + ", 😐",
        other => panic!("not a string: {:?}", other),
    };
    assert_eq!(world.take(&Js::Str(joined)), text("😐, 😐"));
}

#[test]
fn serialization_array() {
    let mut world = World::new();
    let array = world.pass(&vec![integer(1), integer(2)]);
    let reference = world.take(&array);
    assert_eq!(world.returned(&reference), reference);
}

#[test]
fn array_values_are_not_compared_by_value() {
    let mut world = World::new();
    let array = world.pass(&vec![integer(1), integer(2)]);
    let array = world.take(&array);
    let slice: &[i32] = &[1, 2];
    assert_ne!(world.returned(slice), array);
}

#[test]
fn serialization_object() {
    let mut world = World::new();
    let mut entries = SortedEntries::new();
    entries.insert("one".to_string(), integer(1));
    entries.insert("two".to_string(), integer(2));
    let object = world.pass(&entries);
    let object = world.take(&object);
    assert_eq!(world.returned(&object), object);
}

#[test]
fn serialization_symbol() {
    let mut world = World::new();
    let js = world.symbol();
    let value_1 = world.take(&js);
    let value_2 = world.returned(&value_1);
    assert_eq!(value_1, value_2);
    assert_eq!(world.pass(&value_1), world.pass(&value_2));
}

#[test]
fn cloned_symbol() {
    let mut world = World::new();
    let js = world.symbol();
    let value_1 = match world.take(&js) {
        Value::Symbol(symbol) => symbol,
        other => panic!("not a symbol: {:?}", other),
    };
    let value_2 = value_1.clone();
    assert_eq!(value_1, value_2);
    assert_eq!(world.pass(&value_1), world.pass(&value_2));
}

#[test]
fn different_symbols() {
    let mut world = World::new();
    let js_1 = world.symbol();
    let js_2 = world.symbol();
    let value_1 = world.take(&js_1);
    let value_2 = world.take(&js_2);
    assert_ne!(value_1, value_2);
    assert_ne!(world.pass(&value_1), world.pass(&value_2));
}

#[test]
fn serialization_reference() {
    let mut world = World::new();
    let date = world.create(Object::Date);
    let date = world.take(&date);
    let js = world.pass(&date);
    let name = world.kind_name(&js).to_string();
    assert_eq!(world.take(&Js::Str(name)), text("[object Date]"));
}

#[test]
fn reference_by_ref() {
    let mut world = World::new();
    let date = world.create(Object::Date);
    let date = world.take(&date);
    let js = world.pass(&&date);
    let name = world.kind_name(&js).to_string();
    assert_eq!(world.take(&Js::Str(name)), text("[object Date]"));
}

#[test]
fn option_some() {
    assert_eq!(World::new().returned(&Some(true)), Value::Bool(true));
}

#[test]
fn option_none() {
    let boolean_none: Option<bool> = None;
    assert_eq!(World::new().returned(&boolean_none), Value::Null);
}

#[test]
fn value() {
    assert_eq!(World::new().returned(&text("Dog")), text("Dog"));
}

#[test]
fn closure_context() {
    let mut world = World::new();
    let constant: u32 = 0x12345678;
    let mut closure = move |_: ()| -> Plain<Value> {
        let value = integer(i32::try_from(constant).unwrap());
        Newtype::new(value)
    };
    let callback = world.add_closure(Box::new(move |memory: &mut LinearMemory, raw: u32| {
        funcall_adapter(&mut closure, memory, raw, plain_js)
    }));
    let function = world.pass_owned(Newtype::<(FunctionTag, ()), Callback>::new(callback));
    let result = world.call(&function, &[]).unwrap().unwrap();
    assert_eq!(world.take(&result), integer(0x12345678));
    let mut closure = move |_: ()| -> Plain<u32> { Newtype::new(constant) };
    let callback = world.add_closure(Box::new(move |memory: &mut LinearMemory, raw: u32| {
        funcall_adapter(&mut closure, memory, raw, plain_js)
    }));
    let function = world.pass_owned(Newtype::<(FunctionTag, ()), Callback>::new(callback));
    let result = world.call(&function, &[]).unwrap().unwrap();
    assert_eq!(world.take(&result), integer(0x12345678));
}

#[test]
fn string_identity_function() {
    let mut world = World::new();
    let mut identity = |arguments: (String, ())| -> Plain<String> { Newtype::new(arguments.0) };
    let callback = world.add_closure(Box::new(move |memory: &mut LinearMemory, raw: u32| {
        funcall_adapter(&mut identity, memory, raw, plain_js)
    }));
    let function =
        world.pass_owned(Newtype::<(FunctionTag, (String, ())), Callback>::new(callback));
    let empty = world.call(&function, &[Js::Str("".to_string())]).unwrap().unwrap();
    assert_eq!(world.take(&empty), text(""));
    let non_empty = world
        .call(&function, &[Js::Str("死神はりんごしか食べない!".to_string())])
        .unwrap()
        .unwrap();
    assert_eq!(world.take(&non_empty), text("死神はりんごしか食べない!"));
}

#[test]
fn closure_returning_reference_object() {
    let mut world = World::new();
    let mut identity =
        |arguments: (Reference, ())| -> Plain<Reference> { Newtype::new(arguments.0) };
    let callback = world.add_closure(Box::new(move |memory: &mut LinearMemory, raw: u32| {
        funcall_adapter(&mut identity, memory, raw, plain_js)
    }));
    let function =
        world.pass_owned(Newtype::<(FunctionTag, (Reference, ())), Callback>::new(callback));
    let error = world.create(Object::Error);
    let value = world.call(&function, &[error]).unwrap().unwrap();
    assert_eq!(world.kind_name(&value), "[object Error]");
}

// Calls that cannot be made.

#[test]
fn a_call_with_a_wrong_number_of_arguments_fails() {
    let mut world = World::new();
    let mut closure = |_: (bool, (String, ()))| -> Plain<()> { Newtype::new(()) };
    let callback = world.add_closure(Box::new(move |memory: &mut LinearMemory, raw: u32| {
        funcall_adapter(&mut closure, memory, raw, plain_js)
    }));
    let function = world.pass_owned(Newtype::<(FunctionTag, ()), Callback>::new(callback));
    let result = world.call(&function, &[Js::Bool(true)]).unwrap();
    assert!(matches!(result, Err(CallError::ArgumentCount { expected: 2, got: 1 })));
    let result = world.call(&function, &[Js::Null, Js::Null, Js::Null]).unwrap();
    assert!(matches!(result, Err(CallError::ArgumentCount { expected: 2, got: 3 })));
}

#[test]
fn a_call_names_the_first_argument_that_is_not_convertible() {
    let mut world = World::new();
    let mut closure =
        |_: (Value, (bool, (Symbol, (Number, ()))))| -> Plain<()> { Newtype::new(()) };
    let callback = world.add_closure(Box::new(move |memory: &mut LinearMemory, raw: u32| {
        funcall_adapter(&mut closure, memory, raw, plain_js)
    }));
    let function = world.pass_owned(Newtype::<(FunctionTag, ()), Callback>::new(callback));
    let wrong = [Js::Null, Js::Bool(true), Js::Null, Js::Null];
    let result = world.call(&function, &wrong).unwrap();
    assert!(matches!(result, Err(CallError::NotConvertible { argument: 3 })));
    let wrong = [Js::Null, Js::Bool(true), Js::Symbol(7), Js::Str("x".to_string())];
    let result = world.call(&function, &wrong).unwrap();
    assert!(matches!(result, Err(CallError::NotConvertible { argument: 4 })));
    let right = [Js::Null, Js::Bool(true), Js::Symbol(7), Js::Number(0.5)];
    assert_eq!(world.call(&function, &right).unwrap().unwrap(), Js::Undefined);
}

#[test]
fn a_single_call_uses_its_closure_up() {
    let mut world = World::new();
    let callback = world.add_single(Box::new(move |memory: &mut LinearMemory, raw: u32| {
        let closure = |_: ()| -> Plain<bool> { Newtype::new(true) };
        funcall_adapter_once(closure, memory, raw, plain_js)
    }));
    let function =
        world.pass_owned(Newtype::<(FunctionTag, ()), Once<Callback>>::new(Once(callback)));
    assert_eq!(world.call(&function, &[]).unwrap().unwrap(), Js::Bool(true));
    assert!(world.call(&function, &[]).is_none());
}

#[test]
fn nested_values_fill_the_arena_exactly() {
    let mut world = World::new();
    let nested = vec![
        vec![number_and_string(), ObjectEntries::new()],
        Vec::new(),
        vec![number_and_string()],
    ];
    assert_eq!(nested._memory_required(), 16 * 3 + 16 * 3 + 24 * 2 + 24 * 2);
    let js = world.pass(&nested);
    let outer = world.items(&js);
    assert_eq!(outer.len(), 3);
    let first = world.items(&outer[0]);
    assert_eq!(world.property(&first[0], "string"), Js::Str("Hello!".to_string()));
    assert_eq!(world.key_count(&first[1]), 0);
    assert_eq!(world.items(&outer[1]).len(), 0);
    let third = world.items(&outer[2]);
    assert_eq!(world.property(&third[0], "number"), Js::Number(123.0));
}

#[test]
fn a_callback_may_leave_elements_behind() {
    let mut world = World::new();
    let array = world.create(Object::Array(vec![Js::Number(1.0), Js::Number(2.0)]));
    let refid = match array {
        Js::Object(refid) => refid,
        other => panic!("not an object: {:?}", other),
    };
    let serialized = world.serialize_array(refid);
    let first = deserialize_array(
        &mut world.memory,
        &serialized,
        |deserializer: &mut ArrayDeserializer| deserializer.next(),
    );
    assert_eq!(first, Some(integer(1)));
}

// What the library promises of all values, on some of them.

#[test]
fn every_kind_of_value_survives() {
    let mut world = World::new();
    let values = vec![
        Value::Undefined,
        Value::Null,
        Value::Bool(true),
        Value::Bool(false),
        integer(i32::MIN),
        integer(-1),
        integer(i32::MAX),
        float(0.1),
        float(-1e300),
        Value::Symbol(Symbol(-7)),
        text(""),
        text("a\u{0}é死😐"),
        Value::Reference(Reference { refid: 42 }),
    ];
    for value in &values {
        assert_eq!(world.returned(value), *value);
    }
    let array = world.pass(&values);
    assert_eq!(all_elements(&mut world, &array), values);
}

#[test]
fn the_properties_of_an_object_survive() {
    let mut world = World::new();
    let object = world.pass(&number_and_string());
    assert_eq!(
        all_properties(&mut world, &object),
        vec![
            ("number".to_string(), integer(123)),
            ("string".to_string(), text("Hello!")),
        ]
    );
}

#[test]
fn memory_that_is_handed_over_is_given_back() {
    let mut world = World::new();
    let none = format!("{:?}", world.memory).contains("blocks: {}");
    assert!(none);
    world.take(&Js::Str("Dog".to_string()));
    assert!(format!("{:?}", world.memory).contains("blocks: {}"));
    let array = world.create(Object::Array(vec![Js::Str("one".to_string()), Js::Number(1.0)]));
    all_elements(&mut world, &array);
    assert!(format!("{:?}", world.memory).contains("blocks: {}"));
    let object = world.create(Object::Plain(vec![("a".to_string(), Js::Str("b".to_string()))]));
    all_properties(&mut world, &object);
    assert!(format!("{:?}", world.memory).contains("blocks: {}"));
    let mut closure = |_: (bool, ())| -> Plain<Vec<String>> { Newtype::new(Vec::new()) };
    let callback = world.add_closure(Box::new(move |memory: &mut LinearMemory, raw: u32| {
        funcall_adapter(&mut closure, memory, raw, |_: &LinearMemory, value: &SerializedValue| {
            Js::Bool(value.tag == Tag::Array)
        })
    }));
    let function = world.pass_owned(Newtype::<(FunctionTag, (bool, ())), Callback>::new(callback));
    assert_eq!(world.call(&function, &[Js::Bool(true)]).unwrap().unwrap(), Js::Bool(true));
    assert!(world.call(&function, &[Js::Str("no bool".to_string())]).unwrap().is_err());
    assert!(world.call(&function, &[]).unwrap().is_err());
    assert!(format!("{:?}", world.memory).contains("blocks: {}"));
}

#[test]
fn a_string_is_serialized_like_its_text() {
    let mut world = World::new();
    let string = "Dog".to_string();
    assert_eq!(world.pass(&string), world.pass("Dog"));
    assert_eq!(world.pass(&&string), Js::Str("Dog".to_string()));
    assert_eq!(string._memory_required(), 0);
}

#[test]
fn a_vector_is_serialized_like_a_slice() {
    let mut world = World::new();
    let vector: Vec<u8> = vec![1, 2, 255];
    let js_vector = world.pass(&vector);
    let js_slice = world.pass(vector.as_slice());
    let expected = vec![Js::Number(1.0), Js::Number(2.0), Js::Number(255.0)];
    assert_eq!(world.items(&js_vector), expected);
    assert_eq!(world.items(&js_slice), expected);
    assert_eq!(vector._memory_required(), 48);
    assert_eq!(vector.as_slice()._memory_required(), 48);
}

#[test]
fn integers_keep_their_value() {
    let mut world = World::new();
    assert_eq!(world.pass(&-128i8), Js::Number(-128.0));
    assert_eq!(world.pass(&i16::MIN), Js::Number(-32768.0));
    assert_eq!(world.pass(&i32::MIN), Js::Number(-2147483648.0));
    assert_eq!(world.pass(&u8::MAX), Js::Number(255.0));
    assert_eq!(world.pass(&u16::MAX), Js::Number(65535.0));
    assert_eq!(world.pass(&u32::MAX), Js::Number(4294967295.0));
    assert_eq!(world.returned(&u32::MAX), float(4294967295.0));
    assert_eq!(world.pass(&()), Js::Undefined);
    assert_eq!(world.pass(&Number::I32(-5)), Js::Number(-5.0));
    assert_eq!(world.pass(&Float32 { bits: 0.5f32.to_bits() }), Js::Number(0.5));
}

#[test]
fn a_callback_leaves_its_option_and_another_value_stays() {
    let mut arena = PreallocatedArena::new(0);
    let callback = Callback { adapter_pointer: 1, pointer: 2, deallocator_pointer: 3 };
    let mut function = Some(Newtype::<(FunctionTag, ()), Callback>::new(callback));
    let serialized = JsSerializeOwned::into_js_owned(&mut function, &mut arena);
    assert!(function.is_none());
    assert_eq!(serialized.as_function().deallocator_pointer, 3);
    let mut value: Option<Plain<bool>> = Some(Newtype::new(true));
    let serialized = JsSerializeOwned::into_js_owned(&mut value, &mut arena);
    assert!(value.unwrap().unwrap_newtype());
    assert_eq!(serialized.tag, Tag::True);
}

#[test]
fn the_keys_of_a_sorted_object_ascend() {
    let mut world = World::new();
    let mut entries = SortedEntries::new();
    for key in ["b", "é", "", "a", "ab", "Z", "a", "😐", "z", "\u{ffff}"] {
        entries.insert(key.to_string(), key.len() as u8);
    }
    let map: BTreeMap<String, u8> = entries.as_slice().iter().cloned().collect();
    let expected: Vec<(String, u8)> = map.into_iter().collect();
    assert_eq!(entries.as_slice(), expected.as_slice());
    assert_eq!(expected.len(), 9);
    let object = world.pass(&entries);
    let keys: Vec<String> =
        all_properties(&mut world, &object).into_iter().map(|(key, _)| key).collect();
    assert_eq!(keys, ["", "Z", "a", "ab", "b", "z", "é", "\u{ffff}", "😐"]);
}

#[test]
fn a_sorted_object_keeps_one_value_for_a_key() {
    let mut entries = SortedEntries::new();
    entries.insert("b".to_string(), 1);
    entries.insert("a".to_string(), 2);
    entries.insert("b".to_string(), 3);
    assert_eq!(entries.as_slice(), [("a".to_string(), 2), ("b".to_string(), 3)]);
}

#[test]
fn a_function_can_be_called_again() {
    let mut world = World::new();
    let mut calls = 0;
    let mut closure = move |_: ()| -> Plain<i32> {
        calls += 1;
        Newtype::new(calls)
    };
    let callback = world.add_closure(Box::new(move |memory: &mut LinearMemory, raw: u32| {
        funcall_adapter(&mut closure, memory, raw, plain_js)
    }));
    let function = world.pass_owned(Newtype::<(FunctionTag, ()), Callback>::new(callback));
    assert_eq!(world.call(&function, &[]).unwrap().unwrap(), Js::Number(1.0));
    assert_eq!(world.call(&function, &[]).unwrap().unwrap(), Js::Number(2.0));
}

#[test]
fn what_an_arena_takes_comes_back() {
    let mut world = World::new();
    let size = world.memory.size();
    world.pass(&vec![text("one"), text("two")]);
    assert_eq!(world.memory.size(), size);
}
