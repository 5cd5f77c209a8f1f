//! What holds between the encoder and the decoder.

use crate::de::{
    is_any_outcome, is_end_outcome, is_enum_outcome, leftover_text, reads_entries,
    single_key_text, walks_entries, EnumDeserializer, Visit,
};
use crate::error::{fails_with, Error};
use crate::lua::{
    is_cover, is_entry_at, is_named_cover, is_sequence_of, is_string, is_table, kind_of,
    pair_key, put, table_entries, table_is_covered, table_is_plain, table_named_pairs,
    table_pairs, Key, Kind,
};
use crate::ser::{is_variant_of, no_entries};
use vstd::prelude::*;

verus! {

/// The entries of the table of a sequence builder that took `items` in
/// order: each item was stored under its place, counted from 1.
pub open spec fn written<'lua>(items: Seq<mlua::Value<'lua>>) -> Map<Key<'lua>, mlua::Value<'lua>>
    decreases items.len(),
{
    if items.len() == 0 {
        Map::empty()
    } else {
        put(written(items.drop_last()), Key::Index(items.len() as int), items.last())
    }
}

/// The table of a sequence holds an item under its place exactly when the
/// item is not nil, and holds nothing under other keys.
pub proof fn written_holds<'lua>(items: Seq<mlua::Value<'lua>>, key: Key<'lua>)
    ensures
        written(items).contains_key(key) <==> (key matches Key::Index(i) && 1 <= i <= items.len()
            && !(kind_of(items[i - 1]) is Nil)),
        written(items).contains_key(key) ==> (key matches Key::Index(i) && written(items)[key]
            == items[i - 1]),
    decreases items.len(),
{
    if items.len() > 0 {
        written_holds(items.drop_last(), key);
    }
}

/// A sequence is read back as it was written, up to its first nil.
///
/// Let a sequence builder take `items` in order, and let a sequence cursor
/// read the table that results, without failure of the runtime. Then the
/// cursor holds the items before the first nil item, in order, and no more.
/// With no nil among the items, `cut` is their number and the cursor holds
/// them all: what was encoded is what is decoded.
pub proof fn sequence_reads_back<'lua>(
    items: Seq<mlua::Value<'lua>>,
    cut: int,
    read: Seq<Result<mlua::Value<'lua>, mlua::Error>>,
)
    requires
        0 <= cut <= items.len(),
        forall|i: int| 0 <= i < cut ==> !(kind_of(#[trigger] items[i]) is Nil),
        cut < items.len() ==> kind_of(items[cut]) is Nil,
        is_sequence_of(read, written(items)),
        forall|i: int| 0 <= i < read.len() ==> #[trigger] read[i] is Ok,
    ensures
        read.len() == cut,
        forall|i: int| 0 <= i < cut ==> #[trigger] read[i] == Ok::<mlua::Value<'lua>, mlua::Error>(items[i]),
{
    if read.len() > cut {
        assert(read[cut] is Ok);
        written_holds(items, Key::Index(cut + 1));
    }
    if read.len() < cut {
        written_holds(items, Key::Index(read.len() as int + 1));
        if read.len() > 0 {
            assert(read.last() is Ok);
        }
    }
    assert forall|i: int| 0 <= i < cut implies #[trigger] read[i] == Ok::<
        mlua::Value<'lua>,
        mlua::Error,
    >(items[i]) by {
        assert(read[i] is Ok);
        written_holds(items, Key::Index(i + 1));
    }
}

/// A unit variant is read back as it was written.
///
/// The encoder writes a unit variant as the string of its name. An enum
/// decode of such a string finds the variant of that name, without payload,
/// whatever the name is.
pub proof fn unit_variant_reads_back<'lua>(
    value: mlua::Value<'lua>,
    name: Seq<char>,
    r: Result<EnumDeserializer<'lua>, Error>,
)
    requires
        is_string(value, name),
        is_enum_outcome(kind_of(value), r),
    ensures
        r matches Ok(found) && found.variant() == name && found.value() is None,
{
}

/// True when the runtime reads every pair of `table` without failure.
pub open spec fn reads_well(table: mlua::Table<'_>) -> bool {
    forall|j: int|
        0 <= j < table_named_pairs(table).len() ==> (#[trigger] table_named_pairs(table)[j]) is Ok
}

/// A table whose one entry is under a string is read as the variant of that
/// name, with the entry's value as its payload.
proof fn single_entry_is_variant<'lua>(
    table: mlua::Table<'lua>,
    name: Seq<char>,
    r: Result<EnumDeserializer<'lua>, Error>,
)
    requires
        table_is_plain(table),
        table_entries(table).dom() =~= set![Key::Name(name)],
        is_named_cover(table_named_pairs(table), table_entries(table)),
        reads_well(table),
        is_enum_outcome(Kind::Table(table), r),
    ensures
        r matches Ok(found) && found.variant() == name && found.value() == Some(
            table_entries(table)[Key::Name(name)],
        ),
{
    let pairs = table_named_pairs(table);
    let entries = table_entries(table);
    assert(entries.dom().len() == 1) by {
        assert(set![Key::Name(name)].len() == 1);
    }
    assert(pairs.len() == 1);
    assert(pairs[0] is Ok);
    let pair = pairs[0]->Ok_0;
    let key = choose|key: Key<'lua>| is_entry_at(pair, entries, key);
    assert(entries.dom().contains(key));
    assert(key == Key::Name(name));
}

/// A newtype variant is read back as it was written, unless its inner value
/// is nil.
///
/// The encoder writes a newtype variant as a table that holds the inner
/// value under the variant's name. Where the inner value is not nil and the
/// runtime reads the table without failure, an enum decode of that table
/// finds the variant of that name with the inner value as its payload.
pub proof fn newtype_variant_reads_back<'lua>(
    value: mlua::Value<'lua>,
    table: mlua::Table<'lua>,
    name: Seq<char>,
    inner: mlua::Value<'lua>,
    r: Result<EnumDeserializer<'lua>, Error>,
)
    requires
        !(kind_of(inner) is Nil),
        kind_of(value) == Kind::Table(table),
        is_table(value, put(no_entries(), Key::Name(name), inner)),
        reads_well(table),
        reads_entries(kind_of(value)),
        is_enum_outcome(kind_of(value), r),
    ensures
        r matches Ok(found) && found.variant() == name && found.value() == Some(inner),
{
    single_entry_is_variant(table, name, r);
}

/// A newtype variant whose inner value is nil is not read back.
///
/// Nil leaves no entry in the table, so the table is empty, and an empty
/// table is no enum variant: the decode fails for want of a single key.
pub proof fn newtype_variant_of_nil_is_lost<'lua>(
    value: mlua::Value<'lua>,
    table: mlua::Table<'lua>,
    name: Seq<char>,
    inner: mlua::Value<'lua>,
    r: Result<EnumDeserializer<'lua>, Error>,
)
    requires
        kind_of(inner) is Nil,
        kind_of(value) == Kind::Table(table),
        is_table(value, put(no_entries(), Key::Name(name), inner)),
        reads_well(table),
        reads_entries(kind_of(value)),
        is_enum_outcome(kind_of(value), r),
    ensures
        fails_with(r, single_key_text()),
{
    assert(table_entries(table) =~= no_entries());
    assert(table_entries(table).dom() =~= Set::<Key<'lua>>::empty());
    assert(table_entries(table).len() == 0);
}

/// A tuple variant and a struct variant are read back as they were written.
///
/// The encoder writes a variant with fields as a table that holds the table
/// of the fields under the variant's name. Where the runtime reads that
/// table without failure, an enum decode of it finds the variant of that
/// name with the table of the fields as its payload.
pub proof fn variant_with_fields_reads_back<'lua>(
    value: mlua::Value<'lua>,
    table: mlua::Table<'lua>,
    name: Seq<char>,
    fields: mlua::Table<'lua>,
    r: Result<EnumDeserializer<'lua>, Error>,
)
    requires
        kind_of(value) == Kind::Table(table),
        is_variant_of(value, name, fields),
        reads_well(table),
        reads_entries(kind_of(value)),
        is_enum_outcome(kind_of(value), r),
    ensures
        r matches Ok(found) && found.variant() == name && (found.value() matches Some(payload)
            && kind_of(payload) == Kind::Table(fields)),
{
    single_entry_is_variant(table, name, r);
}

/// A map and a struct are read back as they were written, in some order.
///
/// Let `entries` be what a table holds, as a map builder leaves it: each
/// key with the value stored last under it, and no key whose value is nil. Let `pairs` be what a cursor
/// over the table reads, without failure of the runtime. Then there are as
/// many pairs as entries, each pair is the entry under its key, and every
/// entry is read: it is the pair at some place.
pub proof fn map_reads_back<'lua>(
    entries: Map<Key<'lua>, mlua::Value<'lua>>,
    pairs: Seq<Result<(mlua::Value<'lua>, mlua::Value<'lua>), mlua::Error>>,
)
    requires
        is_cover(pairs, entries),
        forall|j: int| 0 <= j < pairs.len() ==> #[trigger] pairs[j] is Ok,
    ensures
        pairs.len() == entries.len(),
        forall|j: int|
            0 <= j < pairs.len() ==> {
                &&& #[trigger] pair_key(pairs, j) matches Some(key)
                &&& entries.contains_key(key)
                &&& entries[key] == pairs[j]->Ok_0.1
            },
        forall|key: Key<'lua>|
            entries.contains_key(key) ==> exists|j: int|
                0 <= j < pairs.len() && #[trigger] pair_key(pairs, j) == Some(key),
{
    let keys = Seq::new(pairs.len(), |j: int| pair_key(pairs, j)->Some_0);
    assert forall|j: int| 0 <= j < pairs.len() implies {
        &&& #[trigger] pair_key(pairs, j) matches Some(key)
        &&& entries.contains_key(key)
        &&& entries[key] == pairs[j]->Ok_0.1
    } by {
        assert(pairs[j] is Ok);
    }
    assert(keys.no_duplicates()) by {
        assert forall|i: int, j: int| 0 <= i < keys.len() && 0 <= j < keys.len() && i != j implies keys[i]
            != keys[j] by {
            assert(pairs[i] is Ok && pairs[j] is Ok);
            assert(pair_key(pairs, i) is Some && pair_key(pairs, j) is Some);
            if i < j {
                assert(pair_key(pairs, i) != pair_key(pairs, j));
            } else {
                assert(pair_key(pairs, j) != pair_key(pairs, i));
            }
        }
    }
    keys.unique_seq_to_set();
    assert(keys.to_set().subset_of(entries.dom())) by {
        assert forall|key: Key<'lua>| keys.to_set().contains(key) implies entries.dom().contains(
            key,
        ) by {
            let j = choose|j: int| 0 <= j < keys.len() && keys[j] == key;
            assert(pair_key(pairs, j) is Some);
        }
    }
    vstd::set_lib::lemma_len_subset(keys.to_set(), entries.dom());
    vstd::set_lib::lemma_subset_equality(keys.to_set(), entries.dom());
    assert forall|key: Key<'lua>| entries.contains_key(key) implies exists|j: int|
        0 <= j < pairs.len() && #[trigger] pair_key(pairs, j) == Some(key) by {
        assert(keys.to_set().contains(key));
        let j = choose|j: int| 0 <= j < keys.len() && keys[j] == key;
        assert(pair_key(pairs, j) is Some);
        assert(pair_key(pairs, j) == Some(key));
    }
}

/// An empty map and a struct without fields are not read back as maps.
///
/// Either is written as an empty table, and a table without pairs is shown
/// as a sequence to a target that does not say what it asks for.
pub proof fn empty_table_is_a_sequence<'lua>(table: mlua::Table<'lua>, r: Result<Visit<'lua>, Error>)
    requires
        table_is_plain(table),
        table_is_covered(table),
        table_entries(table) == no_entries(),
        walks_entries(table),
        forall|j: int| 0 <= j < table_pairs(table).len() ==> (#[trigger] table_pairs(table)[j]) is Ok,
        is_any_outcome(Kind::Table(table), r),
    ensures
        r matches Ok(Visit::Sequence(_)),
{
    assert(table_entries(table).dom() =~= Set::<Key<'lua>>::empty());
    assert(table_pairs(table).len() == 0);
}

/// What is left of `remaining` after a visitor asked for an element `pulls`
/// times: each asking takes the first, while there is one.
pub open spec fn after_pulls<T>(remaining: Seq<T>, pulls: nat) -> Seq<T>
    decreases pulls,
{
    if pulls == 0 || remaining.len() == 0 {
        remaining
    } else {
        after_pulls(remaining.drop_first(), (pulls - 1) as nat)
    }
}

/// A visitor that takes fewer elements than there are fails the decode, and
/// no other does.
///
/// Let a cursor hold `remaining`, let a visitor ask it for an element
/// `pulls` times, and let the cursor then be closed with the outcome `r`.
/// What is left are the elements from place `pulls` on. Where the visitor
/// asked at least as often as there were elements, nothing is left and the
/// outcome is `Ok`. Where it asked less often, the outcome is the error for
/// elements left over. The same holds of the pairs of a map.
pub proof fn leftovers_fail<T>(remaining: Seq<T>, pulls: nat, len: usize, r: Result<(), Error>)
    requires
        is_end_outcome(after_pulls(remaining, pulls).len(), len, r),
    ensures
        pulls <= remaining.len() ==> after_pulls(remaining, pulls) == remaining.skip(pulls as int),
        pulls >= remaining.len() ==> r is Ok,
        pulls < remaining.len() ==> fails_with(r, leftover_text(len)),
{
    pulls_take_from_the_front(remaining, pulls);
}

/// Asking `pulls` times leaves the elements from place `pulls` on, or none.
proof fn pulls_take_from_the_front<T>(remaining: Seq<T>, pulls: nat)
    ensures
        pulls <= remaining.len() ==> after_pulls(remaining, pulls) == remaining.skip(pulls as int),
        pulls >= remaining.len() ==> after_pulls(remaining, pulls).len() == 0,
    decreases pulls,
{
    if pulls == 0 || remaining.len() == 0 {
        assert(remaining.skip(0) =~= remaining);
    } else {
        pulls_take_from_the_front(remaining.drop_first(), (pulls - 1) as nat);
        if pulls <= remaining.len() {
            assert(remaining.drop_first().skip(pulls - 1) =~= remaining.skip(pulls as int));
        }
    }
}

} // verus!
