//! Serialization of values across the boundary between Rust and JavaScript.
//!
//! Both sides share a linear memory ([`memory`]). Every value crosses the boundary as a
//! [`serialized::SerializedValue`]: twelve bytes of data and a tag ([`tag`]). What a value reaches
//! (the elements of an array, the properties of an object, the text of a string) stands in the
//! memory, and the data hold addresses.
//!
//! Rust serializes into an [`arena::PreallocatedArena`] whose size it computes beforehand
//! ([`serialize`], [`object`], [`typed_array`], [`owned`]), and gives it back when JavaScript has
//! read it. It takes over what JavaScript hands to it, with the blocks of memory that go with it
//! ([`deserialize`], [`deserialize_object`], [`call`]).
//!
//! [`meaning`] says which JavaScript value a serialized value stands for. The contracts of both
//! directions speak of it.
//!
//! [`layout`], [`crossing`] and [`arriving`] hold the laws that tie all of this to bytes: how
//! values lie in memory, what JavaScript reads there of each Rust value, and what Rust gets of what
//! JavaScript has written.

pub mod arena;
pub mod arriving;
pub mod call;
pub mod crossing;
pub mod deserialize;
pub mod deserialize_object;
pub mod float;
pub mod key;
pub mod layout;
pub mod meaning;
pub mod memory;
pub mod object;
pub mod owned;
pub mod serialize;
pub mod serialized;
pub mod tag;
pub mod typed_array;
pub mod value;
pub mod wire;
