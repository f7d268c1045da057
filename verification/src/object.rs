//! Objects: properties with keys and values.

use vstd::prelude::*;
use vstd::utf8::encode_utf8;

use crate::arena::{extends, fresh, lemma_extends_trans, rewritten, PreallocatedArena};
use crate::key::{text_before, ObjectKey, OrderedKey};
use crate::meaning::{agree, element_at, js_at, law_meaning_is_framed, object_key_at, text_at};
use crate::memory::{measures, padded, total_size};
use crate::serialize::JsSerialize;
use crate::serialized::{
    key_at, value_at, SerializedUntaggedObject, SerializedUntaggedString, SerializedValue, Untagged,
};
use crate::value::JsValue;
use crate::wire::u32_bytes;

verus! {

/// The properties that entries become.
pub open spec fn entries_js<K: ObjectKey, V: JsSerialize>(entries: Seq<(K, V)>) -> Seq<
    (Seq<char>, JsValue),
> {
    Seq::new(entries.len(), |i: int| (entries[i].0.text(), entries[i].1.js()))
}

/// How many bytes of the arena the values of the first `n` entries take.
pub open spec fn entries_required<K: ObjectKey, V: JsSerialize>(entries: Seq<(K, V)>, n: nat) -> nat
    decreases n,
{
    if n == 0 {
        0
    } else {
        entries_required(entries, (n - 1) as nat) + entries[n - 1].1.required()
    }
}

/// How many bytes the strings and slices take to which the first `n` entries point.
pub open spec fn entries_placed<K: ObjectKey, V: JsSerialize>(entries: Seq<(K, V)>, n: nat) -> nat
    decreases n,
{
    if n == 0 {
        0
    } else {
        entries_placed(entries, (n - 1) as nat) + padded(
            encode_utf8(entries[n - 1].0.text()).len(),
        ) + entries[n - 1].1.placed()
    }
}

proof fn lemma_entries_monotone<K: ObjectKey, V: JsSerialize>(entries: Seq<(K, V)>, n: nat, m: nat)
    requires
        n <= m,
    ensures
        entries_required(entries, n) <= entries_required(entries, m),
        entries_placed(entries, n) <= entries_placed(entries, m),
    decreases m,
{
    if n < m {
        lemma_entries_monotone(entries, n, (m - 1) as nat);
    }
}

/// Whether the first `n` entries are written, with their data within what `after` has in use and
/// `reserved` has not.
pub open spec fn entries_written<K: ObjectKey, V: JsSerialize>(
    entries: Seq<(K, V)>,
    reserved: &PreallocatedArena,
    after: &PreallocatedArena,
    key_pointer: u32,
    value_pointer: u32,
    n: int,
) -> bool {
    &&& forall|j: int|
        #![trigger object_key_at(after.bytes(), key_pointer, j)]
        0 <= j < n ==> text_at(
            after.bytes(),
            fresh(reserved, after),
            object_key_at(after.bytes(), key_pointer, j),
            entries[j].0.text(),
        )
    &&& forall|j: int|
        #![trigger element_at(after.bytes(), value_pointer, j)]
        0 <= j < n ==> {
            &&& element_at(after.bytes(), value_pointer, j) is Some
            &&& js_at(
                after.bytes(),
                fresh(reserved, after),
                element_at(after.bytes(), value_pointer, j)->0,
                entries[j].1.js(),
            )
        }
}

/// Entries that are written stay so while the arena is used further.
proof fn lemma_entries_kept<K: ObjectKey, V: JsSerialize>(
    entries: Seq<(K, V)>,
    reserved: &PreallocatedArena,
    before: &PreallocatedArena,
    after: &PreallocatedArena,
    key_pointer: u32,
    value_pointer: u32,
    n: int,
)
    requires
        entries_written(entries, reserved, before, key_pointer, value_pointer, n),
        fresh(reserved, before).subset_of(fresh(reserved, after)),
        agree(before.bytes(), after.bytes(), fresh(reserved, before)),
        before.bytes().len() <= after.bytes().len(),
        forall|a: int|
            key_pointer <= a < key_pointer + 8 * n || value_pointer <= a < value_pointer + 16 * n
                ==> #[trigger] after.bytes()[a] == before.bytes()[a],
    ensures
        entries_written(entries, reserved, after, key_pointer, value_pointer, n),
{
    assert forall|j: int|
        #![trigger object_key_at(after.bytes(), key_pointer, j)]
        0 <= j < n implies text_at(
        after.bytes(),
        fresh(reserved, after),
        object_key_at(after.bytes(), key_pointer, j),
        entries[j].0.text(),
    ) by {
        let key = object_key_at(before.bytes(), key_pointer, j);
        assert(object_key_at(after.bytes(), key_pointer, j) == key) by {
            reveal(key_at);
        }
        crate::meaning::lemma_text(
            before.bytes(),
            after.bytes(),
            fresh(reserved, before),
            fresh(reserved, after),
            key,
            entries[j].0.text(),
        );
    }
    assert forall|j: int|
        #![trigger element_at(after.bytes(), value_pointer, j)]
        0 <= j < n implies {
        &&& element_at(after.bytes(), value_pointer, j) is Some
        &&& js_at(
            after.bytes(),
            fresh(reserved, after),
            element_at(after.bytes(), value_pointer, j)->0,
            entries[j].1.js(),
        )
    } by {
        let element = element_at(before.bytes(), value_pointer, j);
        assert(element_at(after.bytes(), value_pointer, j) == element) by {
            reveal(value_at);
        }
        law_meaning_is_framed(
            before.bytes(),
            after.bytes(),
            fresh(reserved, before),
            fresh(reserved, after),
            element->0,
            entries[j].1.js(),
        );
    }
}

/// One entry more is written.
proof fn lemma_entry_step<K: ObjectKey, V: JsSerialize>(
    entries: Seq<(K, V)>,
    start: PreallocatedArena,
    reserved: PreallocatedArena,
    before: PreallocatedArena,
    with_text: PreallocatedArena,
    with_key: PreallocatedArena,
    with_data: PreallocatedArena,
    after: PreallocatedArena,
    key_pointer: u32,
    value_pointer: u32,
    i: int,
    key: SerializedUntaggedString,
    element: SerializedValue,
)
    requires
        0 <= i < entries.len(),
        start.wf(),
        key_pointer == start.next(),
        value_pointer == start.next() + 8 * entries.len(),
        extends(&start, &reserved, 24 * entries.len(), 0),
        extends(
            &start,
            &before,
            24 * entries.len() + entries_required(entries, i as nat),
            entries_placed(entries, i as nat),
        ),
        entries_written(entries, &reserved, &before, key_pointer, value_pointer, i),
        extends(&before, &with_text, 0, padded(encode_utf8(entries[i].0.text()).len())),
        text_at(with_text.bytes(), fresh(&before, &with_text), key, entries[i].0.text()),
        rewritten(
            &with_text,
            &with_key,
            key_pointer + 8 * i,
            u32_bytes(key.pointer) + u32_bytes(key.length),
        ),
        key_at(with_key.bytes(), key_pointer + 8 * i) == key,
        extends(&with_key, &with_data, entries[i].1.required(), entries[i].1.placed()),
        js_at(with_data.bytes(), fresh(&with_key, &with_data), element, entries[i].1.js()),
        rewritten(&with_data, &after, value_pointer + 16 * i, element.image()),
        value_at(after.bytes(), value_pointer + 16 * i) == Some(element),
    ensures
        extends(
            &start,
            &after,
            24 * entries.len() + entries_required(entries, (i + 1) as nat),
            entries_placed(entries, (i + 1) as nat),
        ),
        entries_written(entries, &reserved, &after, key_pointer, value_pointer, i + 1),
{
    start.lemma_wf();
    before.lemma_wf();
    with_text.lemma_wf();
    with_key.lemma_wf();
    with_data.lemma_wf();
    assert forall|a: int|
        0 <= a < before.bytes().len() && !(key_pointer + 8 * i <= a < key_pointer + 8 * i + 8) && !(
        value_pointer + 16 * i <= a < value_pointer + 16 * i + 16) && !(before.next() <= a
            < after.next()) implies #[trigger] after.bytes()[a] == before.bytes()[a] by {
        assert(with_text.bytes()[a] == before.bytes()[a]);
        assert(with_key.bytes()[a] == with_text.bytes()[a]);
        assert(with_data.bytes()[a] == with_key.bytes()[a]);
    }
    assert forall|a: int|
        0 <= a < start.bytes().len() && !(start.next() <= a
            < after.next()) implies #[trigger] after.bytes()[a] == start.bytes()[a] by {
        assert(before.bytes()[a] == start.bytes()[a]);
    }
    assert forall|a: int| #[trigger]
        fresh(&reserved, &before).contains(a) && 0 <= a < before.bytes().len() implies a
        < after.bytes().len() && after.bytes()[a] == before.bytes()[a] by {}
    lemma_entries_kept(entries, &reserved, &before, &after, key_pointer, value_pointer, i);
    // The new key.
    assert(text_at(after.bytes(), fresh(&reserved, &after), key, entries[i].0.text())) by {
        assert forall|a: int| #[trigger]
            fresh(&before, &with_text).contains(a) && 0 <= a < with_text.bytes().len() implies a
            < after.bytes().len() && after.bytes()[a] == with_text.bytes()[a] by {
            assert(with_key.bytes()[a] == with_text.bytes()[a]);
            assert(with_data.bytes()[a] == with_key.bytes()[a]);
        }
        crate::meaning::lemma_text(
            with_text.bytes(),
            after.bytes(),
            fresh(&before, &with_text),
            fresh(&reserved, &after),
            key,
            entries[i].0.text(),
        );
    }
    assert(object_key_at(after.bytes(), key_pointer, i) == key) by {
        reveal(key_at);
        let at = key_pointer + 8 * i;
        assert forall|a: int| at <= a < at + 8 implies #[trigger] after.bytes()[a]
            == with_key.bytes()[a] by {
            assert(with_data.bytes()[a] == with_key.bytes()[a]);
        }
    }
    // The new value.
    assert(js_at(after.bytes(), fresh(&reserved, &after), element, entries[i].1.js())) by {
        law_meaning_is_framed(
            with_data.bytes(),
            after.bytes(),
            fresh(&with_key, &with_data),
            fresh(&reserved, &after),
            element,
            entries[i].1.js(),
        );
    }
    assert(element_at(after.bytes(), value_pointer, i) == Some(element));
}

/// All entries are written: the object stands for what it should.
proof fn lemma_object_done<K: ObjectKey, V: JsSerialize>(
    entries: Seq<(K, V)>,
    start: PreallocatedArena,
    reserved: PreallocatedArena,
    after: PreallocatedArena,
    key_pointer: u32,
    value_pointer: u32,
)
    requires
        start.wf(),
        key_pointer == start.next(),
        value_pointer == start.next() + 8 * entries.len(),
        extends(&start, &reserved, 24 * entries.len(), 0),
        extends(
            &start,
            &after,
            24 * entries.len() + entries_required(entries, entries.len()),
            entries_placed(entries, entries.len()),
        ),
        entries_written(
            entries,
            &reserved,
            &after,
            key_pointer,
            value_pointer,
            entries.len() as int,
        ),
    ensures
        js_at(
            after.bytes(),
            fresh(&start, &after),
            (SerializedUntaggedObject {
                key_pointer,
                value_pointer,
                length: entries.len() as u32,
            }).tagged(),
            JsValue::Object(entries_js(entries)),
        ),
{
    start.lemma_wf();
    after.lemma_wf();
    let object = SerializedUntaggedObject {
        key_pointer,
        value_pointer,
        length: entries.len() as u32,
    };
    object.law_data_round_trip();
    let region = fresh(&start, &after);
    let properties = entries_js(entries);
    assert forall|j: int|
        #![trigger object_key_at(after.bytes(), key_pointer, j)]
        #![trigger properties[j]]
        0 <= j < properties.len() implies text_at(
        after.bytes(),
        region,
        object_key_at(after.bytes(), key_pointer, j),
        properties[j].0,
    ) by {
        crate::meaning::lemma_text(
            after.bytes(),
            after.bytes(),
            fresh(&reserved, &after),
            region,
            object_key_at(after.bytes(), key_pointer, j),
            entries[j].0.text(),
        );
    }
    assert forall|j: int|
        #![trigger element_at(after.bytes(), value_pointer, j)]
        #![trigger properties[j]]
        0 <= j < properties.len() implies {
        &&& element_at(after.bytes(), value_pointer, j) is Some
        &&& js_at(
            after.bytes(),
            region,
            element_at(after.bytes(), value_pointer, j)->0,
            properties[j].1,
        )
    } by {
        law_meaning_is_framed(
            after.bytes(),
            after.bytes(),
            fresh(&reserved, &after),
            region,
            element_at(after.bytes(), value_pointer, j)->0,
            entries[j].1.js(),
        );
    }
}

/// The serialized value of an object with `count` entries whose keys stand at `next`, and whose
/// values follow them.
pub open spec fn object_record(next: int, count: nat) -> SerializedValue {
    (SerializedUntaggedObject {
        key_pointer: next as u32,
        value_pointer: (next + 8 * count) as u32,
        length: count as u32,
    }).tagged()
}

/// Serializes an object with the given entries. Its keys stand in the arena first, then its
/// values, then what the values reach.
pub fn object_into_js<K: ObjectKey, V: JsSerialize>(
    entries: &[(K, V)],
    arena: &mut PreallocatedArena,
) -> (value: SerializedValue)
    requires
        old(arena).wf(),
        24 * entries@.len() + entries_required(entries@, entries@.len()) <= old(arena).free(),
        entries_placed(entries@, entries@.len()) <= old(arena).room(),
    ensures
        extends(
            old(arena),
            final(arena),
            24 * entries@.len() + entries_required(entries@, entries@.len()),
            entries_placed(entries@, entries@.len()),
        ),
        js_at(
            final(arena).bytes(),
            fresh(old(arena), final(arena)),
            value,
            JsValue::Object(entries_js(entries@)),
        ),
        value == object_record(old(arena).next(), entries@.len()),
{
    let count = entries.len();
    let ghost start = *old(arena);
    let key_pointer = arena.reserve::<SerializedUntaggedString>(count);
    let ghost keys_reserved = *arena;
    let value_pointer = arena.reserve::<SerializedValue>(count);
    let ghost reserved = *arena;
    let mut i: usize = 0;
    proof {
        start.lemma_wf();
        reserved.lemma_wf();
        lemma_extends_trans(
            &start,
            &keys_reserved,
            &reserved,
            8 * count as nat,
            0,
            16 * count as nat,
            0,
        );
    }
    while i < count
        invariant
            i <= count,
            count == entries@.len(),
            start.wf(),
            24 * count + entries_required(entries@, count as nat) <= start.free(),
            entries_placed(entries@, count as nat) <= start.room(),
            extends(&start, &reserved, 24 * count as nat, 0),
            key_pointer == start.next(),
            value_pointer == start.next() + 8 * count,
            extends(
                &start,
                arena,
                24 * count as nat + entries_required(entries@, i as nat),
                entries_placed(entries@, i as nat),
            ),
            entries_written(entries@, &reserved, arena, key_pointer, value_pointer, i as int),
        decreases count - i,
    {
        let ghost before = *arena;
        proof {
            start.lemma_wf();
            before.lemma_wf();
            lemma_entries_monotone(entries@, (i + 1) as nat, count as nat);
        }
        let key = entries[i].0.as_text()._into_js(arena).as_string();
        let ghost with_text = *arena;
        proof {
            key.law_data_round_trip();
        }
        arena.write_key(key_pointer + 8 * i as u32, key);
        let ghost with_key = *arena;
        let element = entries[i].1._into_js(arena);
        let ghost with_data = *arena;
        arena.write_value(value_pointer + 16 * i as u32, element);
        proof {
            lemma_entry_step(
                entries@,
                start,
                reserved,
                before,
                with_text,
                with_key,
                with_data,
                *arena,
                key_pointer,
                value_pointer,
                i as int,
                key,
                element,
            );
        }
        i = i + 1;
    }
    let length = count as u32;
    proof {
        lemma_object_done(entries@, start, reserved, *arena, key_pointer, value_pointer);
    }
    (SerializedUntaggedObject { key_pointer, value_pointer, length }).into_value()
}

/// How many bytes of the arena an object with the given entries takes.
pub fn object_memory_required<K: ObjectKey, V: JsSerialize>(entries: &[(K, V)]) -> (size: usize)
    requires
        24 * entries@.len() + entries_required(entries@, entries@.len()) <= usize::MAX,
    ensures
        size == 24 * entries@.len() + entries_required(entries@, entries@.len()),
{
    let count = entries.len();
    let mut size: usize = 16 * count + 8 * count;
    let mut i: usize = 0;
    while i < count
        invariant
            i <= count,
            count == entries@.len(),
            24 * count + entries_required(entries@, count as nat) <= usize::MAX,
            size == 24 * count + entries_required(entries@, i as nat),
        decreases count - i,
    {
        proof {
            lemma_entries_monotone(entries@, (i + 1) as nat, count as nat);
        }
        size = size + entries[i].0.as_text()._memory_required() + entries[i].1._memory_required();
        i = i + 1;
    }
    size
}

/// How many bytes the strings and slices take to which an object with the given entries points,
/// unless no memory has room for them.
pub fn object_memory_placed<K: ObjectKey, V: JsSerialize>(entries: &[(K, V)]) -> (size: Option<u32>)
    ensures
        measures(size, entries_placed(entries@, entries@.len())),
{
    let count = entries.len();
    let mut size: Option<u32> = Some(0);
    let mut i: usize = 0;
    while i < count
        invariant
            i <= count,
            count == entries@.len(),
            measures(size, entries_placed(entries@, i as nat)),
        decreases count - i,
    {
        size = total_size(size, entries[i].0.as_text()._memory_placed());
        size = total_size(size, entries[i].1._memory_placed());
        i = i + 1;
    }
    size
}

/// Whether no two entries have the same key.
pub open spec fn distinct_keys<K: ObjectKey, V>(entries: Seq<(K, V)>) -> bool {
    forall|i: int, j: int| 0 <= i < j < entries.len() ==> (#[trigger] entries[i]).0@ != (
    #[trigger] entries[j]).0@
}

/// Whether each entry has a key that comes before those of all entries after it.
pub open spec fn ascending_keys<K: OrderedKey, V>(entries: Seq<(K, V)>) -> bool {
    forall|i: int, j: int|
        0 <= i < j < entries.len() ==> (#[trigger] entries[i]).0.before(&(#[trigger] entries[j]).0)
}

/// Whether one of the entries has the given key.
pub open spec fn has_key<K: ObjectKey, V>(entries: Seq<(K, V)>, key: K) -> bool {
    exists|i: int| 0 <= i < entries.len() && (#[trigger] entries[i]).0@ == key@
}

/// Whether `after` is `before` with another value for the given key, which it has.
pub open spec fn replaced<K: ObjectKey, V>(
    before: Seq<(K, V)>,
    after: Seq<(K, V)>,
    key: K,
    value: V,
) -> bool {
    exists|i: int|
        0 <= i < before.len() && (#[trigger] before[i]).0@ == key@ && after == before.update(
            i,
            (before[i].0, value),
        )
}

/// Whether `after` is `before` with one entry more.
pub open spec fn inserted<K: ObjectKey, V>(
    before: Seq<(K, V)>,
    after: Seq<(K, V)>,
    key: K,
    value: V,
) -> bool {
    exists|i: int| 0 <= i <= before.len() && after == #[trigger] before.insert(i, (key, value))
}

/// The entries of an object: keys that are all distinct, each with a value. They keep the order in
/// which their keys were first inserted.
#[derive(Debug)]
pub struct ObjectEntries<K, V> {
    entries: Vec<(K, V)>,
}

impl<K: ObjectKey, V> ObjectEntries<K, V> {
    /// The entries, in order.
    pub closed spec fn entries(&self) -> Seq<(K, V)> {
        self.entries@
    }

    /// Whether the entries have distinct keys.
    pub open spec fn wf(&self) -> bool {
        distinct_keys(self.entries())
    }

    /// No entries.
    pub fn new() -> (object: Self)
        ensures
            object.wf(),
            object.entries() == Seq::<(K, V)>::empty(),
    {
        ObjectEntries { entries: Vec::new() }
    }

    /// Gives `key` the value `value`: in place of the value that it has, or in an entry of its own
    /// after all others.
    pub fn insert(&mut self, key: K, value: V)
        requires
            old(self).wf(),
        ensures
            final(self).wf(),
            if has_key(old(self).entries(), key) {
                replaced(old(self).entries(), final(self).entries(), key, value)
            } else {
                final(self).entries() == old(self).entries().push((key, value))
            },
    {
        let mut i: usize = 0;
        while i < self.entries.len()
            invariant
                i <= self.entries@.len(),
                self.entries@ == old(self).entries@,
                distinct_keys(self.entries@),
                forall|j: int| 0 <= j < i ==> (#[trigger] self.entries@[j]).0@ != key@,
            decreases self.entries@.len() - i,
        {
            if self.entries[i].0.is_same(&key) {
                replace_value(&mut self.entries, i, value);
                return;
            }
            i = i + 1;
        }
        self.entries.push((key, value));
    }

    /// The entries, in order.
    pub fn as_slice(&self) -> (entries: &[(K, V)])
        ensures
            entries@ == self.entries(),
    {
        self.entries.as_slice()
    }
}

/// Gives the key of an entry another value.
fn replace_value<K, V>(entries: &mut Vec<(K, V)>, i: usize, value: V)
    requires
        i < old(entries)@.len(),
    ensures
        final(entries)@ == old(entries)@.update(i as int, (old(entries)@[i as int].0, value)),
{
    let (key, _) = entries.remove(i);
    entries.insert(i, (key, value));
    assert(entries@ =~= old(entries)@.update(i as int, (old(entries)@[i as int].0, value)));
}

/// The entries of an object in the order of their keys, which are all distinct.
#[derive(Debug)]
pub struct SortedEntries<K, V> {
    entries: Vec<(K, V)>,
}

impl<K: OrderedKey, V> SortedEntries<K, V> {
    /// The entries, in order.
    pub closed spec fn entries(&self) -> Seq<(K, V)> {
        self.entries@
    }

    /// Whether the keys ascend.
    pub open spec fn wf(&self) -> bool {
        ascending_keys(self.entries())
    }

    /// No entries.
    pub fn new() -> (object: Self)
        ensures
            object.wf(),
            object.entries() == Seq::<(K, V)>::empty(),
    {
        SortedEntries { entries: Vec::new() }
    }

    /// Gives `key` the value `value`: in place of the value that it has, or in an entry of its own
    /// in the place that the order gives it.
    pub fn insert(&mut self, key: K, value: V)
        requires
            old(self).wf(),
        ensures
            final(self).wf(),
            if has_key(old(self).entries(), key) {
                replaced(old(self).entries(), final(self).entries(), key, value)
            } else {
                inserted(old(self).entries(), final(self).entries(), key, value)
            },
    {
        let ghost before = self.entries@;
        let mut i: usize = 0;
        while i < self.entries.len() && self.entries[i].0.is_before(&key)
            invariant
                i <= self.entries@.len(),
                self.entries@ == before,
                forall|j: int| 0 <= j < i ==> (#[trigger] before[j]).0.before(&key),
            decreases self.entries@.len() - i,
        {
            i = i + 1;
        }
        if i < self.entries.len() && self.entries[i].0.is_same(&key) {
            replace_value(&mut self.entries, i, value);
            assert(before[i as int].0@ == key@);
            assert(replaced(before, self.entries@, key, value));
        } else {
            proof {
                lemma_place_of_key(before, key, i as int);
            }
            self.entries.insert(i, (key, value));
            assert(self.entries@ == before.insert(i as int, (key, value)));
            assert(inserted(before, self.entries@, key, value));
        }
    }

    /// The entries, in order.
    pub fn as_slice(&self) -> (entries: &[(K, V)])
        ensures
            entries@ == self.entries(),
    {
        self.entries.as_slice()
    }
}

/// A key that comes after the first `n` keys, and is neither after the next one nor the same, comes
/// before all that follow them, and none of the entries has it.
proof fn lemma_place_of_key<K: OrderedKey, V>(entries: Seq<(K, V)>, key: K, n: int)
    requires
        0 <= n <= entries.len(),
        ascending_keys(entries),
        forall|j: int| 0 <= j < n ==> (#[trigger] entries[j]).0.before(&key),
        n < entries.len() ==> !entries[n].0.before(&key) && entries[n].0@ != key@,
    ensures
        forall|j: int| n <= j < entries.len() ==> key.before(&(#[trigger] entries[j]).0),
        !has_key(entries, key),
{
    assert forall|j: int| n <= j < entries.len() implies key.before(
        &(#[trigger] entries[j]).0,
    ) by {
        K::law_order_is_total(&entries[n].0, &key);
        if j > n {
            K::law_order_is_transitive(&key, &entries[n].0, &entries[j].0);
        }
    }
    assert forall|j: int| 0 <= j < entries.len() implies (#[trigger] entries[j]).0@ != key@ by {
        if entries[j].0@ == key@ {
            K::law_order_is_strict(&entries[j].0, &key);
            K::law_order_is_strict(&key, &entries[j].0);
        }
    }
}

/// Keys that ascend are distinct.
pub proof fn law_ascending_keys_are_distinct<K: OrderedKey, V>(entries: Seq<(K, V)>)
    requires
        ascending_keys(entries),
    ensures
        distinct_keys(entries),
{
    assert forall|i: int, j: int| 0 <= i < j < entries.len() implies (#[trigger] entries[i]).0@ != (
    #[trigger] entries[j]).0@ by {
        if entries[i].0@ == entries[j].0@ {
            K::law_order_is_strict(&entries[i].0, &entries[j].0);
        }
    }
}

/// An object whose entries are sorted has one property for each of them, with its key and its
/// value, and the texts of their keys ascend.
pub proof fn law_sorted_object_has_ascending_keys<V: JsSerialize>(object: SortedEntries<String, V>)
    requires
        object.wf(),
    ensures
        object.js() is Object,
        object.js()->Object_0.len() == object.entries().len(),
        forall|i: int|
            0 <= i < object.entries().len() ==> #[trigger] object.js()->Object_0[i] == (
                object.entries()[i].0@,
                object.entries()[i].1.js(),
            ),
        forall|i: int, j: int|
            0 <= i < j < object.entries().len() ==> text_before(
                (#[trigger] object.js()->Object_0[i]).0,
                (#[trigger] object.js()->Object_0[j]).0,
            ),
{
    let entries = object.entries();
    assert forall|i: int, j: int| 0 <= i < j < entries.len() implies text_before(
        (#[trigger] object.js()->Object_0[i]).0,
        (#[trigger] object.js()->Object_0[j]).0,
    ) by {
        assert(entries[i].0.before(&entries[j].0));
    }
}

/// An object whose entries are sorted has one property for each of them, with its key and its
/// value, and the texts of their keys ascend.
pub proof fn law_sorted_object_of_texts_has_ascending_keys<V: JsSerialize>(
    object: SortedEntries<&str, V>,
)
    requires
        object.wf(),
    ensures
        object.js() is Object,
        object.js()->Object_0.len() == object.entries().len(),
        forall|i: int|
            0 <= i < object.entries().len() ==> #[trigger] object.js()->Object_0[i] == (
                object.entries()[i].0@,
                object.entries()[i].1.js(),
            ),
        forall|i: int, j: int|
            0 <= i < j < object.entries().len() ==> text_before(
                (#[trigger] object.js()->Object_0[i]).0,
                (#[trigger] object.js()->Object_0[j]).0,
            ),
{
    let entries = object.entries();
    assert forall|i: int, j: int| 0 <= i < j < entries.len() implies text_before(
        (#[trigger] object.js()->Object_0[i]).0,
        (#[trigger] object.js()->Object_0[j]).0,
    ) by {
        assert(entries[i].0.before(&entries[j].0));
    }
}

/// What the first entries have placed does not depend on those after them.
proof fn lemma_placed_prefix<K: ObjectKey, V: JsSerialize>(
    first: Seq<(K, V)>,
    second: Seq<(K, V)>,
    n: nat,
)
    requires
        n <= first.len(),
        n <= second.len(),
        forall|j: int| 0 <= j < n ==> first[j] == second[j],
    ensures
        entries_placed(first, n) == entries_placed(second, n),
    decreases n,
{
    if n > 0 {
        lemma_placed_prefix(first, second, (n - 1) as nat);
    }
}

/// Without entries nothing is taken, and each entry more takes a key, a serialized value, and what
/// its value and its text take.
pub proof fn law_each_entry_takes_its_memory<K: OrderedKey, V: JsSerialize>(
    object: ObjectEntries<K, V>,
    longer_object: ObjectEntries<K, V>,
    sorted: SortedEntries<K, V>,
    longer_sorted: SortedEntries<K, V>,
    entry: (K, V),
)
    ensures
        object.entries().len() == 0 ==> object.required() == 0 && object.placed() == 0,
        sorted.entries().len() == 0 ==> sorted.required() == 0 && sorted.placed() == 0,
        longer_object.entries() == object.entries().push(entry) ==> {
            &&& longer_object.required() == object.required() + 24 + entry.1.required()
            &&& longer_object.placed() == object.placed() + padded(
                encode_utf8(entry.0.text()).len(),
            ) + entry.1.placed()
        },
        longer_sorted.entries() == sorted.entries().push(entry) ==> {
            &&& longer_sorted.required() == sorted.required() + 24 + entry.1.required()
            &&& longer_sorted.placed() == sorted.placed() + padded(
                encode_utf8(entry.0.text()).len(),
            ) + entry.1.placed()
        },
{
    let first = object.entries();
    let second = sorted.entries();
    lemma_required_prefix(first.push(entry), first, first.len());
    lemma_required_prefix(second.push(entry), second, second.len());
    lemma_placed_prefix(first.push(entry), first, first.len());
    lemma_placed_prefix(second.push(entry), second, second.len());
}

/// Whether the entries give `key` the value `value`.
pub open spec fn gives<K: ObjectKey, V>(entries: Seq<(K, V)>, key: K::V, value: V) -> bool {
    exists|i: int|
        0 <= i < entries.len() && (#[trigger] entries[i]).0@ == key && entries[i].1 == value
}

/// What an insertion makes of entries with distinct keys: they give the key its new value and no
/// other, give all other keys what they gave before, and are one more exactly if none had the key.
pub proof fn law_insertion_gives_one_key_its_value<K: ObjectKey, V>(
    before: Seq<(K, V)>,
    after: Seq<(K, V)>,
    key: K,
    value: V,
    other: K::V,
    given: V,
)
    requires
        distinct_keys(before),
        if has_key(before, key) {
            replaced(before, after, key, value)
        } else {
            inserted(before, after, key, value)
        },
    ensures
        gives(after, key@, given) <==> given == value,
        other != key@ ==> (gives(after, other, given) <==> gives(before, other, given)),
        after.len() == if exists|old_value: V| gives(before, key@, old_value) {
            before.len()
        } else {
            before.len() + 1
        },
{
    if has_key(before, key) {
        let i = choose|i: int|
            0 <= i < before.len() && (#[trigger] before[i]).0@ == key@ && after == before.update(
                i,
                (before[i].0, value),
            );
        assert(gives(before, key@, before[i].1));
        assert(after[i].0@ == key@ && after[i].1 == value);
        assert forall|j: int| 0 <= j < after.len() && j != i implies (#[trigger] after[j]).0@
            != key@ by {
            assert(before[j] == after[j]);
            assert(before[i].0@ == key@);
        }
        if gives(before, other, given) {
            let j = choose|j: int|
                0 <= j < before.len() && (#[trigger] before[j]).0@ == other && before[j].1 == given;
            if other != key@ {
                assert(after[j] == before[j]);
            }
        }
        if gives(after, other, given) && other != key@ {
            let j = choose|j: int|
                0 <= j < after.len() && (#[trigger] after[j]).0@ == other && after[j].1 == given;
            assert(j != i);
            assert(after[j] == before[j]);
        }
    } else {
        let i = choose|i: int|
            0 <= i <= before.len() && after == #[trigger] before.insert(i, (key, value));
        if exists|old_value: V| gives(before, key@, old_value) {
            let old_value = choose|old_value: V| gives(before, key@, old_value);
            let j = choose|j: int|
                0 <= j < before.len() && (#[trigger] before[j]).0@ == key@ && before[j].1
                    == old_value;
            assert(before[j].0@ == key@);
            assert(has_key(before, key));
        }
        assert(after[i] == (key, value));
        assert forall|j: int| 0 <= j < after.len() && j != i implies (#[trigger] after[j]).0@
            != key@ by {
            let k = if j < i {
                j
            } else {
                j - 1
            };
            assert(after[j] == before[k]);
            if before[k].0@ == key@ {
                assert(has_key(before, key));
            }
        }
        if gives(before, other, given) {
            let j = choose|j: int|
                0 <= j < before.len() && (#[trigger] before[j]).0@ == other && before[j].1 == given;
            let k = if j < i {
                j
            } else {
                j + 1
            };
            assert(after[k] == before[j]);
        }
        if gives(after, other, given) && other != key@ {
            let j = choose|j: int|
                0 <= j < after.len() && (#[trigger] after[j]).0@ == other && after[j].1 == given;
            assert(j != i);
            let k = if j < i {
                j
            } else {
                j - 1
            };
            assert(after[j] == before[k]);
        }
    }
}

/// An insertion keeps the order of the keys that were there before.
pub proof fn law_insertion_keeps_the_order<K: ObjectKey, V>(
    before: Seq<(K, V)>,
    after: Seq<(K, V)>,
    key: K,
    value: V,
)
    requires
        if has_key(before, key) {
            replaced(before, after, key, value)
        } else {
            inserted(before, after, key, value)
        },
    ensures
        has_key(before, key) ==> after.map_values(|entry: (K, V)| entry.0) == before.map_values(
            |entry: (K, V)| entry.0,
        ),
        !has_key(before, key) ==> exists|i: int|
            0 <= i < after.len() && after.remove(i) == before && #[trigger] after[i] == (
                key,
                value,
            ),
{
    if has_key(before, key) {
        let i = choose|i: int|
            0 <= i < before.len() && (#[trigger] before[i]).0@ == key@ && after == before.update(
                i,
                (before[i].0, value),
            );
        assert(after.map_values(|entry: (K, V)| entry.0) =~= before.map_values(
            |entry: (K, V)| entry.0,
        ));
    } else {
        let i = choose|i: int|
            0 <= i <= before.len() && after == #[trigger] before.insert(i, (key, value));
        assert(after.remove(i) =~= before);
        assert(after[i] == (key, value));
    }
}

/// An entry that is added after all others is inserted.
pub proof fn law_pushing_is_inserting<K: ObjectKey, V>(entries: Seq<(K, V)>, key: K, value: V)
    ensures
        inserted(entries, entries.push((key, value)), key, value),
{
    assert(entries.push((key, value)) =~= entries.insert(entries.len() as int, (key, value)));
}

/// Keys are distinct if and only if the entries give each key at most one value, in one place; and
/// they ascend if and only if each comes before the one that follows it.
pub proof fn law_order_of_entries<K: OrderedKey, V>(entries: Seq<(K, V)>, i: int, j: int)
    requires
        0 <= i < entries.len(),
        0 <= j < entries.len(),
    ensures
        distinct_keys(entries) && entries[i].0@ == entries[j].0@ ==> i == j,
        ascending_keys(entries) && entries[i].0.before(&entries[j].0) ==> i < j,
        ascending_keys(entries) && i < j ==> entries[i].0.before(&entries[j].0),
{
    if ascending_keys(entries) && entries[i].0.before(&entries[j].0) && i >= j {
        if i > j {
            K::law_order_is_transitive(&entries[i].0, &entries[j].0, &entries[i].0);
        }
        K::law_order_is_strict(&entries[i].0, &entries[i].0);
    }
}

/// Objects with the same entries take the same memory, in whatever order the entries are.
pub proof fn law_required_in_any_order<K: ObjectKey, V: JsSerialize>(
    first: Seq<(K, V)>,
    second: Seq<(K, V)>,
)
    requires
        first.to_multiset() == second.to_multiset(),
    ensures
        first.len() == second.len(),
        entries_required(first, first.len()) == entries_required(second, second.len()),
    decreases first.len(),
{
    first.to_multiset_ensures();
    second.to_multiset_ensures();
    if first.len() > 0 {
        let last = first.last();
        let n = (first.len() - 1) as nat;
        assert(first.contains(last));
        assert(second.to_multiset().count(last) > 0);
        let i = choose|i: int| 0 <= i < second.len() && second[i] == last;
        assert(first.remove(n as int) =~= first.drop_last());
        law_required_in_any_order(first.drop_last(), second.remove(i));
        lemma_required_of_rest(first, n as int);
        lemma_required_of_rest(second, i);
    }
}

/// Objects with the same entries take the same memory, whether the entries are sorted or not.
pub proof fn law_sorted_object_takes_the_same_memory<K: OrderedKey, V: JsSerialize>(
    object: ObjectEntries<K, V>,
    sorted: SortedEntries<K, V>,
)
    requires
        object.entries().to_multiset() == sorted.entries().to_multiset(),
    ensures
        object.required() == sorted.required(),
{
    law_required_in_any_order(object.entries(), sorted.entries());
}

/// What is required without one entry, and for that entry, is what is required.
proof fn lemma_required_of_rest<K: ObjectKey, V: JsSerialize>(entries: Seq<(K, V)>, i: int)
    requires
        0 <= i < entries.len(),
    ensures
        entries_required(entries, entries.len()) == entries_required(
            entries.remove(i),
            (entries.len() - 1) as nat,
        ) + entries[i].1.required(),
    decreases entries.len(),
{
    let n = (entries.len() - 1) as nat;
    let rest = entries.remove(i);
    lemma_required_prefix(entries, entries.drop_last(), n);
    if i < n {
        lemma_required_of_rest(entries.drop_last(), i);
        assert(entries.drop_last().remove(i) =~= rest.drop_last());
        lemma_required_prefix(rest, rest.drop_last(), (n - 1) as nat);
        assert(rest[n - 1] == entries[n as int]);
    } else {
        assert(rest =~= entries.drop_last());
    }
}

/// What the first entries require does not depend on those after them.
proof fn lemma_required_prefix<K: ObjectKey, V: JsSerialize>(
    first: Seq<(K, V)>,
    second: Seq<(K, V)>,
    n: nat,
)
    requires
        n <= first.len(),
        n <= second.len(),
        forall|j: int| 0 <= j < n ==> first[j] == second[j],
    ensures
        entries_required(first, n) == entries_required(second, n),
    decreases n,
{
    if n > 0 {
        lemma_required_prefix(first, second, (n - 1) as nat);
    }
}

impl<K: ObjectKey, V: JsSerialize> JsSerialize for ObjectEntries<K, V> {
    open spec fn js(&self) -> JsValue {
        JsValue::Object(entries_js(self.entries()))
    }

    open spec fn required(&self) -> nat {
        24 * self.entries().len() + entries_required(self.entries(), self.entries().len())
    }

    open spec fn placed(&self) -> nat {
        entries_placed(self.entries(), self.entries().len())
    }

    open spec fn record(&self, next: int, end: int) -> SerializedValue {
        object_record(next, self.entries().len())
    }

    fn _into_js(&self, arena: &mut PreallocatedArena) -> (value: SerializedValue) {
        object_into_js(self.as_slice(), arena)
    }

    fn _memory_required(&self) -> (size: usize) {
        object_memory_required(self.as_slice())
    }

    fn _memory_placed(&self) -> (size: Option<u32>) {
        object_memory_placed(self.as_slice())
    }

    proof fn law_required_is_aligned(&self) {
        lemma_entries_aligned(self.entries(), self.entries().len());
    }
}

impl<K: OrderedKey, V: JsSerialize> JsSerialize for SortedEntries<K, V> {
    open spec fn js(&self) -> JsValue {
        JsValue::Object(entries_js(self.entries()))
    }

    open spec fn required(&self) -> nat {
        24 * self.entries().len() + entries_required(self.entries(), self.entries().len())
    }

    open spec fn placed(&self) -> nat {
        entries_placed(self.entries(), self.entries().len())
    }

    open spec fn record(&self, next: int, end: int) -> SerializedValue {
        object_record(next, self.entries().len())
    }

    fn _into_js(&self, arena: &mut PreallocatedArena) -> (value: SerializedValue) {
        object_into_js(self.as_slice(), arena)
    }

    fn _memory_required(&self) -> (size: usize) {
        object_memory_required(self.as_slice())
    }

    fn _memory_placed(&self) -> (size: Option<u32>) {
        object_memory_placed(self.as_slice())
    }

    proof fn law_required_is_aligned(&self) {
        lemma_entries_aligned(self.entries(), self.entries().len());
    }
}

proof fn lemma_entries_aligned<K: ObjectKey, V: JsSerialize>(entries: Seq<(K, V)>, n: nat)
    ensures
        entries_required(entries, n) % 8 == 0,
    decreases n,
{
    if n > 0 {
        lemma_entries_aligned(entries, (n - 1) as nat);
        entries[n - 1].1.law_required_is_aligned();
    }
}

} // verus!
