# js_serialization

Serialization of values across the boundary between Rust and JavaScript, verified with Verus.

Both sides share a linear memory. A value crosses the boundary as a tagged value of sixteen bytes;
what it reaches stands in the memory. Rust computes beforehand how much of an arena a serialization
takes, and takes over the blocks of memory that JavaScript hands to it.

- `src/` is the library. `meaning.rs` defines which JavaScript value a serialized value stands for;
  the contracts of serialization and deserialization are stated over that definition. Functions
  whose names begin with `law_` state what holds of the library as a whole.
- `tests/` runs the library against a small JavaScript world.
- `app/` holds what touches the JavaScript runtime itself: its calls, closures on the heap, and the
  conversions of floating-point numbers and maps.

The one function of the standard library that is trusted without proof is `String::from_utf8`
(`memory.rs`).
