//! Calls of Rust callbacks from JavaScript.

use vstd::prelude::*;

use crate::arena::{fresh, PreallocatedArena};
use crate::deserialize::{array_js, array_ready, array_taken, elements_owned};
use crate::meaning::{js_at, law_meaning_is_framed};
use crate::memory::{padded, LinearMemory};
use crate::owned::JsSerializeOwned;
use crate::serialized::{SerializedUntaggedArray, SerializedValue};
use crate::value::{JsValue, Number, Reference, Symbol, Value};
use crate::wire::u32_at;

verus! {

/// Why a callback could not be called.
#[derive(Debug)]
pub enum CallError {
    /// The callback expects another number of arguments than it got.
    ArgumentCount { expected: usize, got: usize },
    /// An argument, counted from one, is not convertible to the type of the parameter.
    NotConvertible { argument: usize },
}

/// A type of a parameter of a callback.
pub trait FromValue: Sized {
    /// Whether the type has a value for a JavaScript value.
    spec fn convertible(js: JsValue) -> bool;

    /// Whether `x` is what the type has for a JavaScript value.
    spec fn converts(js: JsValue, x: Self) -> bool;

    /// Converts a value, if the type has a value for it.
    fn try_from_value(value: Value) -> (converted: Option<Self>)
        ensures
            converted is Some <==> Self::convertible(value@),
            converted matches Some(x) ==> Self::converts(value@, x),
    ;
}

impl FromValue for Value {
    open spec fn convertible(js: JsValue) -> bool {
        true
    }

    open spec fn converts(js: JsValue, x: Self) -> bool {
        x@ == js
    }

    fn try_from_value(value: Value) -> (converted: Option<Self>)
        ensures
            converted == Some(value),
    {
        Some(value)
    }
}

impl FromValue for bool {
    open spec fn convertible(js: JsValue) -> bool {
        js is Bool
    }

    open spec fn converts(js: JsValue, x: Self) -> bool {
        js == JsValue::Bool(x)
    }

    fn try_from_value(value: Value) -> (converted: Option<Self>)
        ensures
            match converted {
                Some(x) => value == Value::Bool(x),
                None => !(value is Bool),
            },
    {
        match value {
            Value::Bool(value) => Some(value),
            _ => None,
        }
    }
}

impl FromValue for Number {
    open spec fn convertible(js: JsValue) -> bool {
        js is I32 || js is F64
    }

    open spec fn converts(js: JsValue, x: Self) -> bool {
        x@ == js
    }

    fn try_from_value(value: Value) -> (converted: Option<Self>)
        ensures
            match converted {
                Some(x) => value == Value::Number(x),
                None => !(value is Number),
            },
    {
        match value {
            Value::Number(value) => Some(value),
            _ => None,
        }
    }
}

impl FromValue for Symbol {
    open spec fn convertible(js: JsValue) -> bool {
        js is Symbol
    }

    open spec fn converts(js: JsValue, x: Self) -> bool {
        js == JsValue::Symbol(x.0)
    }

    fn try_from_value(value: Value) -> (converted: Option<Self>)
        ensures
            match converted {
                Some(x) => value == Value::Symbol(x),
                None => !(value is Symbol),
            },
    {
        match value {
            Value::Symbol(value) => Some(value),
            _ => None,
        }
    }
}

impl FromValue for String {
    open spec fn convertible(js: JsValue) -> bool {
        js is Str
    }

    open spec fn converts(js: JsValue, x: Self) -> bool {
        js == JsValue::Str(x@)
    }

    fn try_from_value(value: Value) -> (converted: Option<Self>)
        ensures
            match converted {
                Some(x) => value == Value::String(x),
                None => !(value is String),
            },
    {
        match value {
            Value::String(value) => Some(value),
            _ => None,
        }
    }
}

impl FromValue for Reference {
    open spec fn convertible(js: JsValue) -> bool {
        js is Reference
    }

    open spec fn converts(js: JsValue, x: Self) -> bool {
        js == JsValue::Reference(x.refid)
    }

    fn try_from_value(value: Value) -> (converted: Option<Self>)
        ensures
            match converted {
                Some(x) => value == Value::Reference(x),
                None => !(value is Reference),
            },
    {
        match value {
            Value::Reference(value) => Some(value),
            _ => None,
        }
    }
}

/// The JavaScript values that values are.
pub open spec fn values_js(values: Seq<Value>) -> Seq<JsValue> {
    Seq::new(values.len(), |i: int| values[i]@)
}

/// The arguments of a callback: `()` for none, and otherwise the first argument paired with the
/// arguments that follow it.
pub trait Arguments: Sized {
    /// How many arguments there are.
    spec fn arity() -> nat;

    /// Whether argument `i` can be made of a JavaScript value.
    spec fn accepts(i: int, js: JsValue) -> bool;

    /// Whether the arguments are what their types have for JavaScript values.
    spec fn converts_all(values: Seq<JsValue>, arguments: Self) -> bool;

    /// How many arguments there are.
    fn expected_argument_count() -> (count: usize)
        requires
            Self::arity() <= usize::MAX,
        ensures
            count == Self::arity(),
    ;

    /// Converts all values, or names the first that cannot be converted. `nth` arguments stand
    /// before them.
    fn convert(values: Vec<Value>, nth: usize) -> (arguments: Result<Self, CallError>)
        requires
            values@.len() == Self::arity(),
            nth + Self::arity() <= usize::MAX,
        ensures
            match arguments {
                Ok(arguments) => {
                    &&& Self::converts_all(values_js(values@), arguments)
                    &&& forall|i: int|
                        0 <= i < values@.len() ==> Self::accepts(
                            i,
                            #[trigger] values_js(values@)[i],
                        )
                },
                Err(error) => {
                    let k = error->argument - nth - 1;
                    &&& error is NotConvertible
                    &&& 0 <= k < values@.len()
                    &&& !Self::accepts(k, values_js(values@)[k])
                    &&& forall|i: int|
                        0 <= i < k ==> Self::accepts(i, #[trigger] values_js(values@)[i])
                },
            },
    ;
}

impl Arguments for () {
    open spec fn arity() -> nat {
        0
    }

    open spec fn accepts(i: int, js: JsValue) -> bool {
        false
    }

    open spec fn converts_all(values: Seq<JsValue>, arguments: Self) -> bool {
        values.len() == 0
    }

    fn expected_argument_count() -> (count: usize) {
        0
    }

    fn convert(values: Vec<Value>, nth: usize) -> (arguments: Result<Self, CallError>) {
        assert(values_js(values@) =~= Seq::<JsValue>::empty());
        Ok(())
    }
}

impl<T: FromValue, Rest: Arguments> Arguments for (T, Rest) {
    open spec fn arity() -> nat {
        1 + Rest::arity()
    }

    open spec fn accepts(i: int, js: JsValue) -> bool {
        if i == 0 {
            T::convertible(js)
        } else {
            Rest::accepts(i - 1, js)
        }
    }

    open spec fn converts_all(values: Seq<JsValue>, arguments: Self) -> bool {
        &&& values.len() > 0
        &&& T::converts(values[0], arguments.0)
        &&& Rest::converts_all(values.drop_first(), arguments.1)
    }

    fn expected_argument_count() -> (count: usize) {
        1 + Rest::expected_argument_count()
    }

    fn convert(values: Vec<Value>, nth: usize) -> (arguments: Result<Self, CallError>) {
        let ghost all = values_js(values@);
        let mut values = values;
        let value = values.remove(0);
        let ghost rest = values_js(values@);
        assert(rest =~= all.drop_first());
        assert(value@ == all[0]);
        match T::try_from_value(value) {
            Some(first) => match Rest::convert(values, nth + 1) {
                Ok(others) => {
                    assert forall|i: int| 0 <= i < all.len() implies Self::accepts(
                        i,
                        #[trigger] all[i],
                    ) by {
                        if i > 0 {
                            assert(rest[i - 1] == all[i]);
                        }
                    }
                    Ok((first, others))
                },
                Err(error) => {
                    proof {
                        let k = error->argument - (nth + 1) - 1;
                        assert(rest[k] == all[k + 1]);
                        assert forall|i: int| 0 <= i < k + 1 implies Self::accepts(
                            i,
                            #[trigger] all[i],
                        ) by {
                            if i > 0 {
                                assert(rest[i - 1] == all[i]);
                            }
                        }
                    }
                    Err(error)
                },
            },
            None => {
                Err(CallError::NotConvertible { argument: nth + 1 })
            },
        }
    }
}

/// The array of arguments at `raw_arguments`.
pub open spec fn arguments_at(bytes: Seq<u8>, raw_arguments: u32) -> SerializedUntaggedArray {
    SerializedUntaggedArray {
        pointer: u32_at(bytes, raw_arguments as int),
        length: u32_at(bytes, raw_arguments + 4),
    }
}

/// Whether arguments can be taken over: they are an array that stands in a block of its own, of
/// the size of a serialized value.
pub open spec fn arguments_ready(
    bytes: Seq<u8>,
    blocks: Map<u32, u32>,
    raw_arguments: u32,
) -> bool {
    let array = arguments_at(bytes, raw_arguments);
    &&& blocks.contains_key(raw_arguments)
    &&& blocks[raw_arguments] == 16
    &&& array_ready(bytes, blocks, array)
    &&& array.length != 0 ==> array.pointer != raw_arguments
    &&& !elements_owned(bytes, array.pointer, 0, array.length as int).contains(raw_arguments)
}

/// The arguments at `raw_arguments`.
pub open spec fn arguments_js(bytes: Seq<u8>, raw_arguments: u32) -> Seq<JsValue> {
    array_js(bytes, arguments_at(bytes, raw_arguments))
}

/// The blocks that stay when arguments are taken over.
pub open spec fn arguments_taken(
    bytes: Seq<u8>,
    blocks: Map<u32, u32>,
    raw_arguments: u32,
) -> Map<u32, u32> {
    array_taken(bytes, blocks, arguments_at(bytes, raw_arguments)).remove(raw_arguments)
}

/// Whether value `k` is the first that the type of its parameter does not accept.
pub open spec fn first_refused<A: Arguments>(values: Seq<JsValue>, k: int) -> bool {
    &&& 0 <= k < values.len()
    &&& !A::accepts(k, values[k])
    &&& forall|i: int| 0 <= i < k ==> A::accepts(i, #[trigger] values[i])
}

/// Whether `arguments` is what comes of the given values for a callback: an error if their number
/// is not the expected one, else all of them converted, or the number of the first that the type
/// of its parameter does not accept.
pub open spec fn decodes<A: Arguments>(
    values: Seq<JsValue>,
    arguments: Result<A, CallError>,
) -> bool {
    if values.len() != A::arity() {
        arguments == Err::<A, CallError>(
            CallError::ArgumentCount { expected: A::arity() as usize, got: values.len() as usize },
        )
    } else {
        match arguments {
            Ok(arguments) => {
                &&& A::converts_all(values, arguments)
                &&& forall|i: int| 0 <= i < values.len() ==> A::accepts(i, #[trigger] values[i])
            },
            Err(error) => {
                &&& error is NotConvertible
                &&& first_refused::<A>(values, error->argument - 1)
            },
        }
    }
}

/// Takes over the arguments of a call, all of their memory, and converts them.
pub fn decode_arguments<A: Arguments>(memory: &mut LinearMemory, raw_arguments: u32) -> (arguments:
    Result<A, CallError>)
    requires
        A::arity() <= usize::MAX,
        old(memory).wf(),
        arguments_ready(old(memory).bytes(), old(memory).blocks(), raw_arguments),
    ensures
        decodes::<A>(arguments_js(old(memory).bytes(), raw_arguments), arguments),
        final(memory).wf(),
        final(memory).bytes() == old(memory).bytes(),
        final(memory).blocks() == arguments_taken(
            old(memory).bytes(),
            old(memory).blocks(),
            raw_arguments,
        ),
{
    assert(memory.blocks().contains_key(raw_arguments));
    let array = SerializedUntaggedArray {
        pointer: memory.read_u32(raw_arguments),
        length: memory.read_u32(raw_arguments + 4),
    };
    let values = array.deserialize(memory);
    memory.deallocate(raw_arguments, 16);
    assert(values_js(values@) =~= arguments_js(old(memory).bytes(), raw_arguments));
    let expected = A::expected_argument_count();
    if values.len() != expected {
        return Err(CallError::ArgumentCount { expected, got: values.len() });
    }
    A::convert(values, 0)
}

/// The addresses from `from` up to `to`.
pub open spec fn between(from: int, to: int) -> Set<int> {
    Set::new(|a: int| from <= a < to)
}

/// Whether JavaScript gets to see `value` in the memory `shared` for the result of a call: the
/// memory holds what it held `before`, and after it the arena and what was placed, within which
/// the value stands for the result.
pub open spec fn shows<R: JsSerializeOwned>(
    before: Seq<u8>,
    result: R,
    shared: &LinearMemory,
    value: &SerializedValue,
) -> bool {
    let end = before.len() + padded(result.owned_required());
    &&& shared.wf()
    &&& before.is_prefix_of(shared.bytes())
    &&& shared.bytes().len() == end + result.owned_placed()
    &&& *value == result.owned_record(before.len() as int, end as int)
    &&& js_at(
        shared.bytes(),
        between(before.len() as int, shared.bytes().len() as int),
        *value,
        result.owned_js(),
    )
}

/// While JavaScript reads the result of a call, the memory is what it was before, and after it what
/// the result takes; and the value that JavaScript gets stands for the result.
pub proof fn law_result_is_shown<R: JsSerializeOwned>(
    before: Seq<u8>,
    result: R,
    shared: &LinearMemory,
    value: &SerializedValue,
)
    requires
        shows(before, result, shared, value),
    ensures
        shared.bytes().take(before.len() as int) == before,
        shared.bytes().len() == before.len() + padded(result.owned_required())
            + result.owned_placed(),
        exists|region: Set<int>| #[trigger]
            js_at(shared.bytes(), region, *value, result.owned_js()) && forall|a: int| #[trigger]
            region.contains(a) ==> a >= before.len(),
{
    assert(shared.bytes().take(before.len() as int) =~= before);
    let region = between(before.len() as int, shared.bytes().len() as int);
    assert(js_at(shared.bytes(), region, *value, result.owned_js()));
}

/// Serializes the result of a call into an arena of its own, for as long as JavaScript reads it.
pub fn reply<R: JsSerializeOwned, T, S: FnOnce(&LinearMemory, &SerializedValue) -> T>(
    memory: &mut LinearMemory,
    result: R,
    to_js: S,
) -> (output: T)
    requires
        old(memory).wf(),
        padded(result.owned_required()) + result.owned_placed() <= old(memory).room(),
        forall|shared: &LinearMemory, value: &SerializedValue|
            shows(old(memory).bytes(), result, shared, value) ==> #[trigger] call_requires(
                to_js,
                (shared, value),
            ),
    ensures
        final(memory).wf(),
        final(memory).blocks() == old(memory).blocks(),
        final(memory).bytes() == old(memory).bytes(),
        exists|shared: &LinearMemory, value: &SerializedValue|
            {
                &&& #[trigger] call_ensures(to_js, (shared, value), output)
                &&& shows(old(memory).bytes(), result, shared, value)
            },
{
    let ghost bytes = memory.bytes();
    let ghost blocks = memory.blocks();
    let mut taken = LinearMemory::new();
    std::mem::swap(memory, &mut taken);
    let size = result.memory_required_owned();
    let mut arena = PreallocatedArena::new_in(taken, size);
    let ghost start = arena;
    let ghost given = result;
    let mut result = Some(result);
    let value = JsSerializeOwned::into_js_owned(&mut result, &mut arena);
    proof {
        start.lemma_wf();
        arena.lemma_wf();
        law_meaning_is_framed(
            arena.bytes(),
            arena.bytes(),
            fresh(&start, &arena),
            between(bytes.len() as int, arena.bytes().len() as int),
            value,
            given.owned_js(),
        );
        assert forall|a: int| 0 <= a < bytes.len() implies #[trigger] arena.bytes()[a]
            == bytes[a] by {
            assert(start.bytes()[a] == bytes[a]);
        }
    }
    let output = {
        let shared = arena.memory();
        let output = to_js(shared, &value);
        assert(exists|m: &LinearMemory, v: &SerializedValue| #[trigger]
            call_ensures(to_js, (m, v), output) && shows(bytes, given, m, v));
        output
    };
    *memory = arena.into_memory();
    assert(!blocks.contains_key(start.base() as u32));
    assert(memory.blocks() =~= blocks);
    assert(memory.bytes() =~= bytes);
    output
}

/// Calls a callback with the arguments at `raw_arguments`, and hands its result to `to_js`. The
/// callback can then be called again: it asks no more than before.
pub fn funcall_adapter<
    A: Arguments,
    R: JsSerializeOwned,
    F: FnMut(A) -> R,
    T,
    S: FnOnce(&LinearMemory, &SerializedValue) -> T,
>(callback: &mut F, memory: &mut LinearMemory, raw_arguments: u32, to_js: S) -> (output: Result<
    T,
    CallError,
>)
    requires
        A::arity() <= usize::MAX,
        old(memory).wf(),
        arguments_ready(old(memory).bytes(), old(memory).blocks(), raw_arguments),
        forall|arguments: A|
            A::converts_all(arguments_js(old(memory).bytes(), raw_arguments), arguments)
                ==> #[trigger] call_requires(*old(callback), (arguments,)),
        forall|arguments: A, result: R|
            A::converts_all(arguments_js(old(memory).bytes(), raw_arguments), arguments)
                && #[trigger] call_ensures(*old(callback), (arguments,), result) ==> padded(
                result.owned_required(),
            ) + result.owned_placed() <= old(memory).room(),
        forall|
            arguments: A,
            result: R,
            shared: &LinearMemory,
            value: &SerializedValue,
        |
            #![trigger
                call_ensures(*old(callback), (arguments,), result),
                call_requires(to_js, (shared, value))]
            A::converts_all(arguments_js(old(memory).bytes(), raw_arguments), arguments)
                && call_ensures(*old(callback), (arguments,), result) && shows(
                old(memory).bytes(),
                result,
                shared,
                value,
            ) ==> call_requires(to_js, (shared, value)),
    ensures
        forall|arguments: A|
            call_requires(*old(callback), (arguments,)) ==> #[trigger] call_requires(
                *final(callback),
                (arguments,),
            ),
        final(memory).wf(),
        final(memory).bytes() == old(memory).bytes(),
        final(memory).blocks() == arguments_taken(
            old(memory).bytes(),
            old(memory).blocks(),
            raw_arguments,
        ),
        match output {
            Err(error) => decodes::<A>(
                arguments_js(old(memory).bytes(), raw_arguments),
                Err(error),
            ),
            Ok(output) => exists|
                arguments: A,
                result: R,
                shared: &LinearMemory,
                value: &SerializedValue,
            |
                {
                    &&& decodes::<A>(
                        arguments_js(old(memory).bytes(), raw_arguments),
                        Ok(arguments),
                    )
                    &&& #[trigger] call_ensures(*old(callback), (arguments,), result)
                    &&& #[trigger] call_ensures(to_js, (shared, value), output)
                    &&& shows(old(memory).bytes(), result, shared, value)
                },
        },
{
    match decode_arguments::<A>(memory, raw_arguments) {
        Ok(arguments) => {
            let ghost given = arguments;
            let result = callback(arguments);
            assert(call_ensures(*old(callback), (given,), result));
            let reply = reply(memory, result, to_js);
            let output = Ok::<T, CallError>(reply);
            assert(output->Ok_0 == reply);
            output
        },
        Err(error) => Err(error),
    }
}

/// Calls a callback that can be called a single time with the arguments at `raw_arguments`, and
/// hands its result to `to_js`.
pub fn funcall_adapter_once<
    A: Arguments,
    R: JsSerializeOwned,
    F: FnOnce(A) -> R,
    T,
    S: FnOnce(&LinearMemory, &SerializedValue) -> T,
>(callback: F, memory: &mut LinearMemory, raw_arguments: u32, to_js: S) -> (output: Result<
    T,
    CallError,
>)
    requires
        A::arity() <= usize::MAX,
        old(memory).wf(),
        arguments_ready(old(memory).bytes(), old(memory).blocks(), raw_arguments),
        forall|arguments: A|
            A::converts_all(arguments_js(old(memory).bytes(), raw_arguments), arguments)
                ==> #[trigger] call_requires(callback, (arguments,)),
        forall|arguments: A, result: R|
            A::converts_all(arguments_js(old(memory).bytes(), raw_arguments), arguments)
                && #[trigger] call_ensures(callback, (arguments,), result) ==> padded(
                result.owned_required(),
            ) + result.owned_placed() <= old(memory).room(),
        forall|
            arguments: A,
            result: R,
            shared: &LinearMemory,
            value: &SerializedValue,
        |
            #![trigger
                call_ensures(callback, (arguments,), result),
                call_requires(to_js, (shared, value))]
            A::converts_all(arguments_js(old(memory).bytes(), raw_arguments), arguments)
                && call_ensures(callback, (arguments,), result) && shows(
                old(memory).bytes(),
                result,
                shared,
                value,
            ) ==> call_requires(to_js, (shared, value)),
    ensures
        final(memory).wf(),
        final(memory).bytes() == old(memory).bytes(),
        final(memory).blocks() == arguments_taken(
            old(memory).bytes(),
            old(memory).blocks(),
            raw_arguments,
        ),
        match output {
            Err(error) => decodes::<A>(
                arguments_js(old(memory).bytes(), raw_arguments),
                Err(error),
            ),
            Ok(output) => exists|
                arguments: A,
                result: R,
                shared: &LinearMemory,
                value: &SerializedValue,
            |
                {
                    &&& decodes::<A>(
                        arguments_js(old(memory).bytes(), raw_arguments),
                        Ok(arguments),
                    )
                    &&& #[trigger] call_ensures(callback, (arguments,), result)
                    &&& #[trigger] call_ensures(to_js, (shared, value), output)
                    &&& shows(old(memory).bytes(), result, shared, value)
                },
        },
{
    match decode_arguments::<A>(memory, raw_arguments) {
        Ok(arguments) => {
            let ghost given = arguments;
            let result = callback(arguments);
            assert(call_ensures(callback, (given,), result));
            let reply = reply(memory, result, to_js);
            let output = Ok::<T, CallError>(reply);
            assert(output->Ok_0 == reply);
            output
        },
        Err(error) => Err(error),
    }
}

} // verus!
