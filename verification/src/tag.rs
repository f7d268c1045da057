//! The tags that tell serialized values apart.

use vstd::prelude::*;

verus! {

/// What kind of value a [`crate::serialized::SerializedValue`] holds.
#[derive(Copy, Clone, PartialEq, Eq, Structural, Debug)]
pub enum Tag {
    Undefined,
    Null,
    I32,
    F64,
    Str,
    False,
    True,
    Array,
    Object,
    Reference,
    Function,
    FunctionOnce,
    UnsafeTypedArray,
    Symbol,
}

impl Default for Tag {
    fn default() -> (tag: Self)
        ensures
            tag == Tag::Undefined,
    {
        Tag::Undefined
    }
}

impl Tag {
    /// The byte that stands for the tag in memory. Codes 11 and 12 are not in use.
    pub open spec fn spec_code(self) -> u8 {
        match self {
            Tag::Undefined => 0,
            Tag::Null => 1,
            Tag::I32 => 2,
            Tag::F64 => 3,
            Tag::Str => 4,
            Tag::False => 5,
            Tag::True => 6,
            Tag::Array => 7,
            Tag::Object => 8,
            Tag::Reference => 9,
            Tag::Function => 10,
            Tag::FunctionOnce => 13,
            Tag::UnsafeTypedArray => 14,
            Tag::Symbol => 15,
        }
    }

    /// The tag that a byte stands for, if it stands for one.
    pub open spec fn spec_from_code(code: u8) -> Option<Tag> {
        match code {
            0 => Some(Tag::Undefined),
            1 => Some(Tag::Null),
            2 => Some(Tag::I32),
            3 => Some(Tag::F64),
            4 => Some(Tag::Str),
            5 => Some(Tag::False),
            6 => Some(Tag::True),
            7 => Some(Tag::Array),
            8 => Some(Tag::Object),
            9 => Some(Tag::Reference),
            10 => Some(Tag::Function),
            13 => Some(Tag::FunctionOnce),
            14 => Some(Tag::UnsafeTypedArray),
            15 => Some(Tag::Symbol),
            _ => None,
        }
    }

    /// The byte that stands for the tag.
    pub fn code(self) -> (code: u8)
        ensures
            code == self.spec_code(),
    {
        match self {
            Tag::Undefined => 0,
            Tag::Null => 1,
            Tag::I32 => 2,
            Tag::F64 => 3,
            Tag::Str => 4,
            Tag::False => 5,
            Tag::True => 6,
            Tag::Array => 7,
            Tag::Object => 8,
            Tag::Reference => 9,
            Tag::Function => 10,
            Tag::FunctionOnce => 13,
            Tag::UnsafeTypedArray => 14,
            Tag::Symbol => 15,
        }
    }

    /// The tag that a byte stands for.
    pub fn from_code(code: u8) -> (tag: Option<Tag>)
        ensures
            tag == Tag::spec_from_code(code),
    {
        match code {
            0 => Some(Tag::Undefined),
            1 => Some(Tag::Null),
            2 => Some(Tag::I32),
            3 => Some(Tag::F64),
            4 => Some(Tag::Str),
            5 => Some(Tag::False),
            6 => Some(Tag::True),
            7 => Some(Tag::Array),
            8 => Some(Tag::Object),
            9 => Some(Tag::Reference),
            10 => Some(Tag::Function),
            13 => Some(Tag::FunctionOnce),
            14 => Some(Tag::UnsafeTypedArray),
            15 => Some(Tag::Symbol),
            _ => None,
        }
    }
}

/// A tag is read back from the byte that stands for it, and no other byte stands for it.
pub proof fn law_tag_codes(tag: Tag, code: u8)
    ensures
        Tag::spec_from_code(tag.spec_code()) == Some(tag),
        Tag::spec_from_code(code) == Some(tag) <==> code == tag.spec_code(),
{
}

} // verus!
