//! Keys of objects.

use vstd::prelude::*;
use vstd::utf8::{encode_utf8, encode_utf8_decode_utf8};

verus! {

/// A type of keys: a key is known by its view, and has a text. Different keys may have the same
/// text.
pub trait ObjectKey: View + Sized {
    /// The text of the key.
    spec fn text(&self) -> Seq<char>;

    /// The text of the key.
    fn as_text(&self) -> (text: &str)
        ensures
            text@ == self.text(),
    ;

    /// Whether two keys are the same.
    fn is_same(&self, other: &Self) -> (same: bool)
        ensures
            same == (self@ == other@),
    ;
}

/// A type of keys with an order.
pub trait OrderedKey: ObjectKey {
    /// Whether the key comes before another.
    spec fn before(&self, other: &Self) -> bool;

    /// Whether the key comes before another.
    fn is_before(&self, other: &Self) -> (before: bool)
        ensures
            before == self.before(other),
    ;

    /// No key comes before itself.
    proof fn law_order_is_strict(first: &Self, second: &Self)
        requires
            first@ == second@,
        ensures
            !first.before(second),
    ;

    /// A key comes before all that come after a key that it comes before.
    proof fn law_order_is_transitive(first: &Self, second: &Self, third: &Self)
        requires
            first.before(second),
            second.before(third),
        ensures
            first.before(third),
    ;

    /// Of two keys that are not the same, one comes before the other.
    proof fn law_order_is_total(first: &Self, second: &Self)
        requires
            first@ != second@,
        ensures
            first.before(second) || second.before(first),
    ;
}

/// Whether `first` comes before `second` in lexicographic order.
pub open spec fn bytes_before(first: Seq<u8>, second: Seq<u8>) -> bool
    decreases first.len(),
{
    if second.len() == 0 {
        false
    } else if first.len() == 0 {
        true
    } else if first[0] != second[0] {
        first[0] < second[0]
    } else {
        bytes_before(first.drop_first(), second.drop_first())
    }
}

/// Whether `first` comes before `second` in the order of their bytes.
pub open spec fn text_before(first: Seq<char>, second: Seq<char>) -> bool {
    bytes_before(encode_utf8(first), encode_utf8(second))
}

proof fn lemma_bytes_strict(bytes: Seq<u8>)
    ensures
        !bytes_before(bytes, bytes),
    decreases bytes.len(),
{
    if bytes.len() > 0 {
        lemma_bytes_strict(bytes.drop_first());
    }
}

proof fn lemma_bytes_transitive(first: Seq<u8>, second: Seq<u8>, third: Seq<u8>)
    requires
        bytes_before(first, second),
        bytes_before(second, third),
    ensures
        bytes_before(first, third),
    decreases first.len(),
{
    if first.len() > 0 && second.len() > 0 && third.len() > 0 && first[0] == second[0]
        && second[0] == third[0] {
        lemma_bytes_transitive(first.drop_first(), second.drop_first(), third.drop_first());
    }
}

proof fn lemma_bytes_total(first: Seq<u8>, second: Seq<u8>)
    requires
        first != second,
    ensures
        bytes_before(first, second) || bytes_before(second, first),
    decreases first.len(),
{
    if first.len() == 0 {
        if second.len() == 0 {
            assert(first =~= second);
        }
    } else if second.len() > 0 && first[0] == second[0] {
        if first.drop_first() == second.drop_first() {
            assert(first =~= seq![first[0]] + first.drop_first());
            assert(second =~= seq![second[0]] + second.drop_first());
        }
        lemma_bytes_total(first.drop_first(), second.drop_first());
    }
}

/// Whether `first` comes before `second` in the order of their bytes.
fn is_text_before(first: &str, second: &str) -> (before: bool)
    ensures
        before == text_before(first@, second@),
{
    let first = first.as_bytes();
    let second = second.as_bytes();
    let mut i: usize = 0;
    assert(first@ =~= first@.skip(0));
    assert(second@ =~= second@.skip(0));
    while i < first.len() && i < second.len() && first[i] == second[i]
        invariant
            i <= first@.len(),
            i <= second@.len(),
            bytes_before(first@, second@) == bytes_before(
                first@.skip(i as int),
                second@.skip(i as int),
            ),
        decreases first@.len() - i,
    {
        assert(first@.skip(i as int).drop_first() =~= first@.skip(i + 1));
        assert(second@.skip(i as int).drop_first() =~= second@.skip(i + 1));
        i = i + 1;
    }
    if i >= second.len() {
        false
    } else if i >= first.len() {
        true
    } else {
        first[i] < second[i]
    }
}

/// A text comes before another if the first byte in which they differ is less, or if it is the
/// start of the other; the order of strings that are keys is that of their texts.
pub proof fn law_order_of_texts(
    strings: (String, String),
    texts: (&str, &str),
    first: Seq<char>,
    second: Seq<char>,
    k: int,
)
    requires
        0 <= k <= encode_utf8(first).len(),
        k < encode_utf8(second).len(),
        encode_utf8(first).take(k) == encode_utf8(second).take(k),
        k < encode_utf8(first).len() ==> encode_utf8(first)[k] < encode_utf8(second)[k],
    ensures
        text_before(first, second),
        strings.0@ == first && strings.1@ == second ==> strings.0.before(&strings.1)
            && !strings.1.before(&strings.0),
        texts.0@ == first && texts.1@ == second ==> texts.0.before(&texts.1) && !texts.1.before(
            &texts.0,
        ),
{
    let a = encode_utf8(first);
    let b = encode_utf8(second);
    lemma_first_difference(a, b, k);
    if bytes_before(b, a) {
        lemma_bytes_transitive(a, b, a);
        lemma_bytes_strict(a);
    }
}

proof fn lemma_first_difference(first: Seq<u8>, second: Seq<u8>, k: int)
    requires
        0 <= k <= first.len(),
        k < second.len(),
        first.take(k) == second.take(k),
        k < first.len() ==> first[k] < second[k],
    ensures
        bytes_before(first, second),
    decreases k,
{
    if k > 0 {
        assert(first.take(k)[0] == first[0]);
        assert(second.take(k)[0] == second[0]);
        assert(first.drop_first().take(k - 1) =~= first.take(k).drop_first());
        assert(second.drop_first().take(k - 1) =~= second.take(k).drop_first());
        lemma_first_difference(first.drop_first(), second.drop_first(), k - 1);
    }
}

impl ObjectKey for String {
    open spec fn text(&self) -> Seq<char> {
        self@
    }

    fn as_text(&self) -> (text: &str) {
        self.as_str()
    }

    fn is_same(&self, other: &Self) -> (same: bool) {
        *self == *other
    }
}

impl OrderedKey for String {
    open spec fn before(&self, other: &Self) -> bool {
        text_before(self@, other@)
    }

    fn is_before(&self, other: &Self) -> (before: bool) {
        is_text_before(self.as_str(), other.as_str())
    }

    proof fn law_order_is_strict(first: &Self, second: &Self) {
        lemma_bytes_strict(encode_utf8(first@));
    }

    proof fn law_order_is_transitive(first: &Self, second: &Self, third: &Self) {
        lemma_bytes_transitive(encode_utf8(first@), encode_utf8(second@), encode_utf8(third@));
    }

    proof fn law_order_is_total(first: &Self, second: &Self) {
        encode_utf8_decode_utf8(first@);
        encode_utf8_decode_utf8(second@);
        lemma_bytes_total(encode_utf8(first@), encode_utf8(second@));
    }
}

impl<'a> ObjectKey for &'a str {
    open spec fn text(&self) -> Seq<char> {
        self@
    }

    fn as_text(&self) -> (text: &str) {
        self
    }

    fn is_same(&self, other: &Self) -> (same: bool) {
        proof {
            if self@ == other@ {
                lemma_bytes_strict(encode_utf8(self@));
            } else {
                encode_utf8_decode_utf8(self@);
                encode_utf8_decode_utf8(other@);
                lemma_bytes_total(encode_utf8(self@), encode_utf8(other@));
            }
        }
        !is_text_before(self, other) && !is_text_before(other, self)
    }
}

impl<'a> OrderedKey for &'a str {
    open spec fn before(&self, other: &Self) -> bool {
        text_before(self@, other@)
    }

    fn is_before(&self, other: &Self) -> (before: bool) {
        is_text_before(self, other)
    }

    proof fn law_order_is_strict(first: &Self, second: &Self) {
        lemma_bytes_strict(encode_utf8(first@));
    }

    proof fn law_order_is_transitive(first: &Self, second: &Self, third: &Self) {
        lemma_bytes_transitive(encode_utf8(first@), encode_utf8(second@), encode_utf8(third@));
    }

    proof fn law_order_is_total(first: &Self, second: &Self) {
        encode_utf8_decode_utf8(first@);
        encode_utf8_decode_utf8(second@);
        lemma_bytes_total(encode_utf8(first@), encode_utf8(second@));
    }
}

} // verus!
