//! Little-endian integers in a sequence of bytes.

use vstd::prelude::*;

verus! {

/// The number of values of a 32-bit word.
pub const WORD: u64 = 0x1_0000_0000;

/// The two bytes of `x`, least significant first.
pub open spec fn u16_bytes(x: u16) -> Seq<u8> {
    seq![(x % 256) as u8, (x / 256) as u8]
}

/// The four bytes of `x`, least significant first.
pub open spec fn u32_bytes(x: u32) -> Seq<u8> {
    seq![
        (x % 256) as u8,
        (x / 256 % 256) as u8,
        (x / 65536 % 256) as u8,
        (x / 16777216) as u8,
    ]
}

/// The low 32-bit word of `x`.
pub open spec fn low_word(x: u64) -> u32 {
    (x % WORD) as u32
}

/// The high 32-bit word of `x`.
pub open spec fn high_word(x: u64) -> u32 {
    (x / WORD) as u32
}

/// The 64-bit number made of two 32-bit words.
pub open spec fn words(low: u32, high: u32) -> u64 {
    (low + high * WORD) as u64
}

/// The eight bytes of `x`, least significant first.
pub open spec fn u64_bytes(x: u64) -> Seq<u8> {
    u32_bytes(low_word(x)) + u32_bytes(high_word(x))
}

/// The 32-bit number whose bytes stand at index `at`.
pub open spec fn u32_at(bytes: Seq<u8>, at: int) -> u32 {
    (bytes[at] + 256 * bytes[at + 1] + 65536 * bytes[at + 2] + 16777216 * bytes[at + 3]) as u32
}

/// The 64-bit number whose bytes stand at index `at`.
pub open spec fn u64_at(bytes: Seq<u8>, at: int) -> u64 {
    words(u32_at(bytes, at), u32_at(bytes, at + 4))
}

/// `bytes` with `part` written over it at index `at`.
pub open spec fn overwritten(bytes: Seq<u8>, at: int, part: Seq<u8>) -> Seq<u8> {
    Seq::new(
        bytes.len(),
        |i: int|
            if at <= i < at + part.len() {
                part[i - at]
            } else {
                bytes[i]
            },
    )
}

/// Whether `part` stands in `bytes` at index `at`.
pub open spec fn stands_at(bytes: Seq<u8>, at: int, part: Seq<u8>) -> bool {
    &&& 0 <= at
    &&& at + part.len() <= bytes.len()
    &&& forall|i: int| 0 <= i < part.len() ==> #[trigger] bytes[at + i] == part[i]
}

/// Reading a 32-bit number gives back the number whose bytes were written.
pub proof fn law_u32_round_trip(bytes: Seq<u8>, at: int, x: u32)
    requires
        stands_at(bytes, at, u32_bytes(x)),
    ensures
        u32_at(bytes, at) == x,
{
    let part = u32_bytes(x);
    assert(bytes[at + 0] == part[0]);
    assert(bytes[at + 1] == part[1]);
    assert(bytes[at + 2] == part[2]);
    assert(bytes[at + 3] == part[3]);
}

/// A 64-bit number is made of its two words.
pub proof fn law_words_round_trip(x: u64, low: u32, high: u32)
    ensures
        words(low_word(x), high_word(x)) == x,
        low_word(words(low, high)) == low,
        high_word(words(low, high)) == high,
{
    assert(low + high * WORD <= u64::MAX);
}

/// Reading a 64-bit number gives back the number whose bytes were written.
pub proof fn law_u64_round_trip(bytes: Seq<u8>, at: int, x: u64)
    requires
        stands_at(bytes, at, u64_bytes(x)),
    ensures
        u64_at(bytes, at) == x,
{
    let part = u64_bytes(x);
    assert forall|i: int| 0 <= i < 4 implies #[trigger] bytes[at + i]
        == u32_bytes(low_word(x))[i] by {
        assert(bytes[at + i] == part[i]);
    }
    assert forall|i: int| 0 <= i < 4 implies #[trigger] bytes[at + 4 + i] == u32_bytes(
        high_word(x),
    )[i] by {
        assert(bytes[at + (4 + i)] == part[4 + i]);
    }
    law_u32_round_trip(bytes, at, low_word(x));
    law_u32_round_trip(bytes, at + 4, high_word(x));
    law_words_round_trip(x, 0, 0);
}

/// The low word of `x`.
pub fn low(x: u64) -> (w: u32)
    ensures
        w == low_word(x),
{
    (x % WORD) as u32
}

/// The high word of `x`.
pub fn high(x: u64) -> (w: u32)
    ensures
        w == high_word(x),
{
    (x / WORD) as u32
}

/// The 64-bit number made of two words.
pub fn join(low: u32, high: u32) -> (x: u64)
    ensures
        x == words(low, high),
{
    low as u64 + high as u64 * WORD
}

/// Appends the two bytes of `x`.
pub fn push_u16(out: &mut Vec<u8>, x: u16)
    ensures
        final(out)@ == old(out)@ + u16_bytes(x),
{
    out.push((x % 256) as u8);
    out.push((x / 256) as u8);
    assert(out@ =~= old(out)@ + u16_bytes(x));
}

/// Appends the four bytes of `x`.
pub fn push_u32(out: &mut Vec<u8>, x: u32)
    ensures
        final(out)@ == old(out)@ + u32_bytes(x),
{
    out.push((x % 256) as u8);
    out.push((x / 256 % 256) as u8);
    out.push((x / 65536 % 256) as u8);
    out.push((x / 16777216) as u8);
    assert(out@ =~= old(out)@ + u32_bytes(x));
}

/// Appends the eight bytes of `x`.
pub fn push_u64(out: &mut Vec<u8>, x: u64)
    ensures
        final(out)@ == old(out)@ + u64_bytes(x),
{
    push_u32(out, low(x));
    push_u32(out, high(x));
    assert(out@ =~= old(out)@ + u64_bytes(x));
}

} // verus!
